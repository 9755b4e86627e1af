use sea_battle::board::{
    coords_contain, coords_touch, no_ship_zone, CellType, Point2d, Ship, ShipType, ShotOutcome,
};
use sea_battle::dto::ShipsRaw;
use sea_battle::error::{FleetError, GameError};
use sea_battle::player::{
    build_ships, find_owner, has_valid_composition, is_fleet_on_board, ship_type_for, Player,
};
use sea_battle::render::{cell_symbol, grid_as_json_single};

fn fleet() -> ShipsRaw {
    vec![
        vec![(0, 0), (0, 1), (0, 2), (0, 3)],
        vec![(2, 0), (2, 1), (2, 2)],
        vec![(2, 4), (2, 5), (2, 6)],
        vec![(4, 0), (4, 1)],
        vec![(4, 3), (4, 4)],
        vec![(4, 6), (4, 7)],
        vec![(6, 0)],
        vec![(6, 2)],
        vec![(6, 4)],
        vec![(6, 6)],
    ]
}

fn ship_cells() -> Vec<(usize, usize)> {
    fleet().into_iter().flatten().collect()
}

fn board() -> Player {
    Player::submit_fleet("alice".to_string(), &fleet()).unwrap()
}

fn sorted(mut zone: Vec<Point2d>) -> Vec<(usize, usize)> {
    zone.sort_by_key(|p| (p.x, p.y));
    zone.into_iter().map(|p| (p.x, p.y)).collect()
}

#[test]
fn point_new_keeps_its_coordinates() {
    let p = Point2d::new(3, 7);
    assert_eq!((p.x, p.y), (3, 7));
}

#[test]
fn a_point_touches_itself_and_its_eight_neighbours_only() {
    let p = Point2d::new(5, 5);
    for x in 0..10usize {
        for y in 0..10usize {
            let near = (4..=6).contains(&x) && (4..=6).contains(&y);
            assert_eq!(p.is_touching(&Point2d::new(x, y)), near);
        }
    }
    assert!(!Point2d::new(0, 0).is_touching(&Point2d::new(usize::MAX, 0)));
    assert!(Point2d::new(usize::MAX, 0).is_touching(&Point2d::new(usize::MAX - 1, 1)));
}

#[test]
fn deck_counts_of_the_ship_types() {
    assert_eq!(ShipType::OneDeck1.deck_count(), 1);
    assert_eq!(ShipType::OneDeck4.deck_count(), 1);
    assert_eq!(ShipType::TwoDeck1.deck_count(), 2);
    assert_eq!(ShipType::TwoDeck3.deck_count(), 2);
    assert_eq!(ShipType::ThreeDeck1.deck_count(), 3);
    assert_eq!(ShipType::ThreeDeck2.deck_count(), 3);
    assert_eq!(ShipType::FourDeck1.deck_count(), 4);
}

#[test]
fn ship_type_follows_the_size() {
    assert_eq!(ship_type_for(1), ShipType::OneDeck1);
    assert_eq!(ship_type_for(2), ShipType::TwoDeck1);
    assert_eq!(ship_type_for(3), ShipType::ThreeDeck1);
    assert_eq!(ship_type_for(4), ShipType::FourDeck1);
    assert_eq!(ship_type_for(7), ShipType::OneDeck1);
}

#[test]
fn new_ship_has_the_health_of_its_type() {
    let ship = Ship::new(vec![Point2d::new(1, 1)], ShipType::ThreeDeck2);
    assert_eq!(ship.health, 3);
    assert_eq!(ship.ship_type, ShipType::ThreeDeck2);
    assert_eq!(ship.coords, vec![Point2d::new(1, 1)]);
    assert!(!ship.is_dead());
}

#[test]
fn ship_takes_as_many_hits_as_it_has_decks() {
    let mut ship = Ship::new(vec![Point2d::new(0, 0), Point2d::new(0, 1)], ShipType::TwoDeck1);
    assert_eq!(ship.health, 2);
    assert!(ship.hit().is_empty());
    assert_eq!(ship.health, 1);
    assert!(!ship.is_dead());
    let zone = ship.hit();
    assert_eq!(ship.health, 0);
    assert!(ship.is_dead());
    assert_eq!(sorted(zone), vec![(0, 2), (1, 0), (1, 1), (1, 2)]);
}

#[test]
fn zone_of_a_ship_in_the_middle_has_the_whole_ring() {
    let zone = no_ship_zone(&vec![Point2d::new(5, 5)]);
    assert_eq!(
        sorted(zone),
        vec![(4, 4), (4, 5), (4, 6), (5, 4), (5, 6), (6, 4), (6, 5), (6, 6)]
    );
}

#[test]
fn zone_is_clipped_at_the_edge_of_the_board() {
    let zone = no_ship_zone(&vec![Point2d::new(9, 9)]);
    assert_eq!(sorted(zone), vec![(8, 8), (8, 9), (9, 8)]);
    let zone = no_ship_zone(&vec![Point2d::new(0, 9), Point2d::new(1, 9)]);
    assert_eq!(sorted(zone), vec![(0, 8), (1, 8), (2, 8), (2, 9)]);
}

#[test]
fn zone_of_no_cells_is_empty() {
    assert!(no_ship_zone(&vec![]).is_empty());
}

#[test]
fn coords_contain_and_touch() {
    let coords = vec![Point2d::new(2, 2), Point2d::new(2, 3)];
    assert!(coords_contain(&coords, Point2d::new(2, 3)));
    assert!(!coords_contain(&coords, Point2d::new(3, 2)));
    assert!(coords_touch(&coords, Point2d::new(3, 4)));
    assert!(coords_touch(&coords, Point2d::new(2, 2)));
    assert!(!coords_touch(&coords, Point2d::new(4, 2)));
    assert!(!coords_touch(&vec![], Point2d::new(4, 2)));
}

#[test]
fn valid_fleet_is_accepted() {
    assert!(is_fleet_on_board(&fleet()));
    assert!(has_valid_composition(&fleet()));
    let player = board();
    assert_eq!(player.name, "alice");
    assert_eq!(player.ships.len(), 10);
    assert_eq!(player.grid_state.len(), 10);
    for row in &player.grid_state {
        assert_eq!(row.len(), 10);
    }
    let cells = ship_cells();
    assert_eq!(cells.len(), 20);
    for x in 0..10usize {
        for y in 0..10usize {
            let expected = if cells.contains(&(x, y)) {
                CellType::HasShip
            } else {
                CellType::EmptyNoShip
            };
            assert_eq!(player.cell(Point2d::new(x, y)), expected);
        }
    }
    assert!(!player.is_all_destroyed());
}

#[test]
fn ships_of_a_fleet_are_fresh_and_typed_by_size() {
    let ships = build_ships(&fleet());
    let types: Vec<ShipType> = ships.iter().map(|s| s.ship_type).collect();
    assert_eq!(
        types,
        vec![
            ShipType::FourDeck1,
            ShipType::ThreeDeck1,
            ShipType::ThreeDeck1,
            ShipType::TwoDeck1,
            ShipType::TwoDeck1,
            ShipType::TwoDeck1,
            ShipType::OneDeck1,
            ShipType::OneDeck1,
            ShipType::OneDeck1,
            ShipType::OneDeck1,
        ]
    );
    let health: Vec<usize> = ships.iter().map(|s| s.health).collect();
    assert_eq!(health, vec![4, 3, 3, 2, 2, 2, 1, 1, 1, 1]);
    assert_eq!(ships[1].coords, vec![Point2d::new(2, 0), Point2d::new(2, 1), Point2d::new(2, 2)]);
}

#[test]
fn order_of_the_ships_in_a_fleet_does_not_matter() {
    let mut raw = fleet();
    raw.reverse();
    assert!(Player::submit_fleet("a".to_string(), &raw).is_ok());
}

fn refused(raw: &ShipsRaw) -> GameError {
    Player::submit_fleet("a".to_string(), raw).unwrap_err()
}

#[test]
fn fleet_with_a_missing_ship_is_refused() {
    let mut raw = fleet();
    raw.pop();
    assert!(!has_valid_composition(&raw));
    assert_eq!(refused(&raw), GameError::FleetError(FleetError::InvalidComposition));
}

#[test]
fn fleet_with_an_extra_ship_is_refused() {
    let mut raw = fleet();
    raw.push(vec![(8, 8)]);
    assert_eq!(refused(&raw), GameError::FleetError(FleetError::InvalidComposition));
}

#[test]
fn fleet_with_a_ship_of_unknown_size_is_refused() {
    let mut raw = fleet();
    raw[0] = vec![(0, 0), (0, 1), (0, 2), (0, 3), (0, 4)];
    assert_eq!(refused(&raw), GameError::FleetError(FleetError::InvalidComposition));
    let mut raw = fleet();
    raw[9] = vec![];
    assert_eq!(refused(&raw), GameError::FleetError(FleetError::InvalidComposition));
}

#[test]
fn fleet_with_the_wrong_numbers_of_each_size_is_refused() {
    let mut raw = fleet();
    raw[9] = vec![(8, 0), (8, 1)];
    assert_eq!(refused(&raw), GameError::FleetError(FleetError::InvalidComposition));
    assert_eq!(refused(&vec![]), GameError::FleetError(FleetError::InvalidComposition));
}

#[test]
fn fleet_with_a_cell_off_the_board_is_a_bad_request() {
    let mut raw = fleet();
    raw[9] = vec![(10, 0)];
    assert!(!is_fleet_on_board(&raw));
    assert_eq!(refused(&raw), GameError::BadRequest);
    let mut raw = fleet();
    raw[0][3] = (0, 10);
    assert_eq!(refused(&raw), GameError::BadRequest);
}

#[test]
fn the_composition_is_reported_before_a_cell_off_the_board() {
    let mut raw = fleet();
    raw.pop();
    raw[0][0] = (usize::MAX, 0);
    assert!(!is_fleet_on_board(&raw));
    assert_eq!(refused(&raw), GameError::FleetError(FleetError::InvalidComposition));
    let mut raw = fleet();
    raw[0] = vec![(10, 0), (10, 1), (10, 2), (10, 3), (10, 4)];
    assert_eq!(refused(&raw), GameError::FleetError(FleetError::InvalidComposition));
    let mut raw = fleet();
    raw.push(vec![(0, 10)]);
    assert_eq!(refused(&raw), GameError::FleetError(FleetError::InvalidComposition));
}

#[test]
fn shot_at_water_is_a_miss() {
    let mut player = board();
    let report = player.apply_shot(Point2d::new(9, 9));
    assert_eq!(report.outcome, ShotOutcome::Miss);
    assert!(report.no_ship_zone.is_empty());
    assert_eq!(player.cell(Point2d::new(9, 9)), CellType::EmptyMissed);
    let health: Vec<usize> = player.ships.iter().map(|s| s.health).collect();
    assert_eq!(health, vec![4, 3, 3, 2, 2, 2, 1, 1, 1, 1]);
}

#[test]
fn shot_at_a_ship_is_a_hit_and_costs_that_ship_one_point() {
    let mut player = board();
    let report = player.apply_shot(Point2d::new(2, 5));
    assert_eq!(report.outcome, ShotOutcome::Hit);
    assert!(report.no_ship_zone.is_empty());
    assert_eq!(player.cell(Point2d::new(2, 5)), CellType::HasShipHit);
    let health: Vec<usize> = player.ships.iter().map(|s| s.health).collect();
    assert_eq!(health, vec![4, 3, 2, 2, 2, 2, 1, 1, 1, 1]);
}

#[test]
fn last_hit_on_a_ship_sinks_it_and_names_the_zone_around_it() {
    let mut player = board();
    assert_eq!(player.apply_shot(Point2d::new(4, 0)).outcome, ShotOutcome::Hit);
    let report = player.apply_shot(Point2d::new(4, 1));
    assert_eq!(report.outcome, ShotOutcome::Sunk);
    assert_eq!(
        sorted(report.no_ship_zone),
        vec![(3, 0), (3, 1), (3, 2), (4, 2), (5, 0), (5, 1), (5, 2)]
    );
    assert_eq!(player.ships[3].health, 0);
    // the zone is reported, not marked
    assert_eq!(player.cell(Point2d::new(3, 0)), CellType::EmptyNoShip);
    assert_eq!(player.cell(Point2d::new(4, 2)), CellType::EmptyNoShip);
}

#[test]
fn one_deck_ship_sinks_at_once() {
    let mut player = board();
    let report = player.apply_shot(Point2d::new(6, 0));
    assert_eq!(report.outcome, ShotOutcome::Sunk);
    assert_eq!(sorted(report.no_ship_zone), vec![(5, 0), (5, 1), (6, 1), (7, 0), (7, 1)]);
}

#[test]
fn second_shot_at_a_cell_changes_nothing() {
    for target in [Point2d::new(9, 9), Point2d::new(0, 0), Point2d::new(6, 6)] {
        let mut player = board();
        player.apply_shot(target);
        let grid = player.grid_state.clone();
        let health: Vec<usize> = player.ships.iter().map(|s| s.health).collect();
        let report = player.apply_shot(target);
        assert_eq!(report.outcome, ShotOutcome::AlreadyResolved);
        assert!(report.no_ship_zone.is_empty());
        assert_eq!(player.grid_state, grid);
        assert_eq!(player.ships.iter().map(|s| s.health).collect::<Vec<_>>(), health);
    }
}

#[test]
fn fleet_is_destroyed_with_the_twentieth_hit_and_not_before() {
    let mut player = board();
    let cells = ship_cells();
    for (n, (x, y)) in cells.iter().enumerate() {
        assert!(!player.is_all_destroyed());
        let report = player.apply_shot(Point2d::new(*x, *y));
        assert!(matches!(report.outcome, ShotOutcome::Hit | ShotOutcome::Sunk));
        assert_eq!(player.is_all_destroyed(), n == 19);
    }
    assert!(player.ships.iter().all(|s| s.is_dead()));
    // misses do not count
    let mut player = board();
    for y in 0..10 {
        player.apply_shot(Point2d::new(9, y));
        player.apply_shot(Point2d::new(8, y));
    }
    assert!(!player.is_all_destroyed());
}

#[test]
fn a_cell_claimed_twice_belongs_to_the_ship_placed_last() {
    let mut raw = fleet();
    raw[9] = vec![(0, 0)];
    let mut player = Player::submit_fleet("a".to_string(), &raw).unwrap();
    assert_eq!(find_owner(&player.ships, Point2d::new(0, 0)), Some(9));
    assert_eq!(find_owner(&player.ships, Point2d::new(0, 1)), Some(0));
    assert_eq!(find_owner(&player.ships, Point2d::new(9, 9)), None);
    let report = player.apply_shot(Point2d::new(0, 0));
    assert_eq!(report.outcome, ShotOutcome::Sunk);
    assert_eq!(player.ships[9].health, 0);
    assert_eq!(player.ships[0].health, 4);
    for (x, y) in [(0, 1), (0, 2), (0, 3)] {
        assert_eq!(player.apply_shot(Point2d::new(x, y)).outcome, ShotOutcome::Hit);
    }
    assert_eq!(player.ships[0].health, 1);
}

#[test]
fn player_new_gives_every_ship_the_health_of_its_type() {
    let mut worn = Ship::new(vec![Point2d::new(1, 1), Point2d::new(1, 2)], ShipType::TwoDeck1);
    worn.hit();
    assert_eq!(worn.health, 1);
    let mut odd = Ship::new(vec![Point2d::new(3, 3)], ShipType::FourDeck1);
    odd.health = 9;
    let mut sunk = Ship::new(vec![Point2d::new(5, 5)], ShipType::OneDeck2);
    sunk.hit();
    assert!(sunk.is_dead());
    let player = Player::new("bob".to_string(), vec![worn, odd, sunk]);
    let health: Vec<usize> = player.ships.iter().map(|s| s.health).collect();
    assert_eq!(health, vec![2, 4, 1]);
    assert_eq!(player.ships[0].coords, vec![Point2d::new(1, 1), Point2d::new(1, 2)]);
    assert_eq!(player.ships[1].ship_type, ShipType::FourDeck1);
    assert_eq!(player.grid_state[5][5], CellType::HasShip);
}

#[test]
fn player_new_places_the_ships_it_is_given() {
    let ships = vec![
        Ship::new(vec![Point2d::new(1, 1), Point2d::new(1, 2)], ShipType::TwoDeck1),
        Ship::new(vec![Point2d::new(12, 3)], ShipType::OneDeck1),
    ];
    let player = Player::new("bob".to_string(), ships);
    assert_eq!(player.name, "bob");
    assert_eq!(player.ships.len(), 2);
    for x in 0..10usize {
        for y in 0..10usize {
            let expected = if (x, y) == (1, 1) || (x, y) == (1, 2) {
                CellType::HasShip
            } else {
                CellType::EmptyNoShip
            };
            assert_eq!(player.grid_state[x][y], expected);
        }
    }
}

#[test]
fn symbols_of_the_cells() {
    assert_eq!(cell_symbol(CellType::EmptyNoShip, false), ".");
    assert_eq!(cell_symbol(CellType::EmptyNoShip, true), ".");
    assert_eq!(cell_symbol(CellType::HasShip, false), "#");
    assert_eq!(cell_symbol(CellType::HasShip, true), ".");
    assert_eq!(cell_symbol(CellType::HasShipHit, false), "x");
    assert_eq!(cell_symbol(CellType::HasShipHit, true), "x");
    assert_eq!(cell_symbol(CellType::EmptyMissed, false), "_");
    assert_eq!(cell_symbol(CellType::EmptyMissed, true), "_");
}

#[test]
fn owner_sees_the_ships_and_the_opponent_does_not() {
    let mut player = board();
    player.apply_shot(Point2d::new(0, 0));
    player.apply_shot(Point2d::new(9, 9));
    let own = grid_as_json_single(&player, false);
    let other = grid_as_json_single(&player, true);
    assert_eq!(own.len(), 10);
    assert_eq!(other.len(), 10);
    let cells = ship_cells();
    for x in 0..10usize {
        assert_eq!(own[x].len(), 10);
        assert_eq!(other[x].len(), 10);
        for y in 0..10usize {
            let (mine, theirs) = if (x, y) == (0, 0) {
                ("x", "x")
            } else if (x, y) == (9, 9) {
                ("_", "_")
            } else if cells.contains(&(x, y)) {
                ("#", ".")
            } else {
                (".", ".")
            };
            assert_eq!(own[x][y], mine);
            assert_eq!(other[x][y], theirs);
        }
    }
}
