use torus_nav::direction::Direction;
use torus_nav::entity::PlayerId;
use torus_nav::entity::ShipId;
use torus_nav::navi::Navi;
use torus_nav::position::Position;
use torus_nav::ship::Ship;

fn pos(x: i32, y: i32) -> Position {
    Position { x, y }
}

fn ship(id: usize, owner: usize, x: i32, y: i32) -> Ship {
    Ship { id: ShipId(id), owner: PlayerId(owner), position: pos(x, y) }
}

#[test]
fn candidates_are_empty_exactly_at_the_destination() {
    let navi = Navi::new(10, 10);
    assert!(navi.get_unsafe_moves(&pos(3, 3), &pos(3, 3)).is_empty());
    // the same cell under different raw coordinates
    assert!(navi.get_unsafe_moves(&pos(12, 3), &pos(2, -7)).is_empty());
    assert!(!navi.get_unsafe_moves(&pos(3, 3), &pos(4, 3)).is_empty());
}

#[test]
fn candidates_go_the_direct_way_when_it_is_shorter() {
    let navi = Navi::new(10, 10);
    assert_eq!(navi.get_unsafe_moves(&pos(0, 0), &pos(3, 0)), vec![Direction::East]);
    assert_eq!(navi.get_unsafe_moves(&pos(0, 0), &pos(0, 3)), vec![Direction::South]);
    assert_eq!(navi.get_unsafe_moves(&pos(5, 5), &pos(3, 5)), vec![Direction::West]);
    assert_eq!(navi.get_unsafe_moves(&pos(5, 5), &pos(5, 3)), vec![Direction::North]);
}

#[test]
fn candidates_wrap_when_the_way_round_is_shorter() {
    let navi = Navi::new(10, 10);
    assert_eq!(navi.get_unsafe_moves(&pos(0, 0), &pos(9, 0)), vec![Direction::West]);
    assert_eq!(navi.get_unsafe_moves(&pos(0, 0), &pos(0, 9)), vec![Direction::North]);
    assert_eq!(navi.get_unsafe_moves(&pos(9, 9), &pos(1, 9)), vec![Direction::East]);
    let navi5 = Navi::new(5, 5);
    assert_eq!(navi5.get_unsafe_moves(&pos(0, 0), &pos(3, 0)), vec![Direction::West]);
}

#[test]
fn candidate_ties_prefer_the_non_wrapping_direction() {
    let navi = Navi::new(10, 10);
    // five steps either way: the direct direction wins
    assert_eq!(navi.get_unsafe_moves(&pos(0, 0), &pos(5, 0)), vec![Direction::East]);
    assert_eq!(navi.get_unsafe_moves(&pos(5, 0), &pos(0, 0)), vec![Direction::West]);
    assert_eq!(navi.get_unsafe_moves(&pos(0, 0), &pos(0, 5)), vec![Direction::South]);
    assert_eq!(navi.get_unsafe_moves(&pos(0, 5), &pos(0, 0)), vec![Direction::North]);
}

#[test]
fn candidates_list_the_horizontal_axis_first() {
    let navi = Navi::new(10, 10);
    assert_eq!(
        navi.get_unsafe_moves(&pos(1, 1), &pos(2, 2)),
        vec![Direction::East, Direction::South]
    );
    assert_eq!(
        navi.get_unsafe_moves(&pos(2, 2), &pos(1, 1)),
        vec![Direction::West, Direction::North]
    );
}

#[test]
fn naive_navigate_takes_the_first_vacant_candidate() {
    let mut navi = Navi::new(10, 10);
    let s = ship(1, 0, 0, 0);
    navi.update_frame(&vec![s]);
    assert_eq!(navi.naive_navigate(&s, &pos(2, 2)), Direction::East);
    // the chosen cell is committed at once
    assert!(!navi.is_safe(&pos(1, 0)));
}

#[test]
fn naive_navigate_falls_back_to_the_second_candidate() {
    let mut navi = Navi::new(10, 10);
    let mine = ship(1, 0, 0, 0);
    let other = ship(2, 1, 1, 0);
    navi.update_frame(&vec![mine, other]);
    assert_eq!(navi.naive_navigate(&mine, &pos(2, 2)), Direction::South);
    assert!(!navi.is_safe(&pos(0, 1)));
}

#[test]
fn naive_navigate_returns_still_when_every_candidate_is_taken() {
    let mut navi = Navi::new(10, 10);
    let mine = ship(1, 0, 0, 0);
    let east = ship(2, 1, 1, 0);
    navi.update_frame(&vec![mine, east]);
    assert_eq!(navi.naive_navigate(&mine, &pos(2, 0)), Direction::Still);
    // nothing new was committed
    assert!(navi.is_safe(&pos(0, 1)));
}

#[test]
fn smart_safety_accepts_a_cell_held_by_an_own_agent() {
    let mut navi = Navi::new(10, 10);
    let first = ship(1, 0, 0, 0);
    let second = ship(2, 0, 1, 0);
    let enemy = ship(3, 1, 2, 0);
    navi.update_frame(&vec![first, second, enemy]);
    let owner_ships = vec![ShipId(1), ShipId(2)];
    let none: Vec<Position> = Vec::new();
    // an own occupant will move away this turn; a stranger will not
    assert!(navi.is_smart_safe(&pos(1, 0), &pos(0, 0), &owner_ships, &none, &none));
    assert!(!navi.is_smart_safe(&pos(2, 0), &pos(1, 0), &owner_ships, &none, &none));
}

#[test]
fn self_safety_rejects_a_cell_already_planned_for() {
    let navi = Navi::new(10, 10);
    let futures = vec![pos(4, 4)];
    let currents = vec![pos(4, 5)];
    assert!(!navi.is_self_safe(&pos(4, 4), &pos(3, 4), &futures, &currents));
    assert!(navi.is_self_safe(&pos(5, 4), &pos(3, 4), &futures, &currents));
}

#[test]
fn swap_detection_rejects_the_second_half_of_a_cross() {
    let mut navi = Navi::new(10, 10);
    let first = ship(1, 0, 0, 0);
    let second = ship(2, 0, 1, 0);
    navi.update_frame(&vec![first, second]);
    let owner_ships = vec![ShipId(1), ShipId(2)];
    let mut futures: Vec<Position> = Vec::new();
    let mut currents: Vec<Position> = Vec::new();

    currents.push(first.position);
    let d1 = navi.better_navigate(&first, &pos(1, 0), &owner_ships, &futures, &currents);
    assert_eq!(d1, Direction::East);
    futures.push(pos(1, 0));

    currents.push(second.position);
    // the swap target is now rejected by the predicate itself ...
    assert!(!navi.is_smart_safe(&pos(0, 0), &pos(1, 0), &owner_ships, &futures, &currents));
    // ... so the second agent cannot complete the cross
    let d2 = navi.better_navigate(&second, &pos(0, 0), &owner_ships, &futures, &currents);
    assert_eq!(d2, Direction::Still);
}

#[test]
fn resolved_agents_never_claim_the_same_cell() {
    let mut navi = Navi::new(10, 10);
    let fleet = vec![ship(1, 0, 4, 4), ship(2, 0, 5, 4), ship(3, 0, 4, 5), ship(4, 0, 5, 5)];
    navi.update_frame(&fleet);
    let owner_ships: Vec<ShipId> = fleet.iter().map(|s| s.id).collect();
    let mut futures: Vec<Position> = Vec::new();
    let mut currents: Vec<Position> = Vec::new();

    // every agent heads for the same destination
    for s in &fleet {
        currents.push(s.position);
        let d = navi.better_navigate(s, &pos(4, 4), &owner_ships, &futures, &currents);
        let future = s.position.directional_offset(d);
        futures.push(navi.normalize(&future));
    }

    for i in 0..futures.len() {
        for j in 0..futures.len() {
            if i != j {
                assert_ne!(futures[i], futures[j]);
            }
        }
    }
}

#[test]
fn an_agent_that_stays_still_blocks_its_cell_for_the_rest_of_the_turn() {
    let mut navi = Navi::new(10, 10);
    let stuck = ship(1, 0, 5, 5);
    let mover = ship(2, 0, 5, 6);
    let enemy = ship(3, 1, 6, 5);
    navi.update_frame(&vec![stuck, mover, enemy]);
    let owner_ships = vec![ShipId(1), ShipId(2)];
    let mut futures: Vec<Position> = Vec::new();
    let mut currents: Vec<Position> = Vec::new();

    currents.push(stuck.position);
    // the only candidate cell is enemy-held, so the agent stays put
    let d1 = navi.better_navigate(&stuck, &pos(6, 5), &owner_ships, &futures, &currents);
    assert_eq!(d1, Direction::Still);
    // the caller records the current cell as the agent's future cell
    futures.push(stuck.position);

    // every later safety check on that cell now fails ...
    currents.push(mover.position);
    assert!(!navi.is_smart_safe(&pos(5, 5), &pos(5, 6), &owner_ships, &futures, &currents));
    // ... and the map still shows the cell occupied
    assert!(!navi.is_safe(&pos(5, 5)));
    // so an agent whose only candidate is that cell is held back
    let d2 = navi.better_navigate(&mover, &pos(5, 4), &owner_ships, &futures, &currents);
    assert_eq!(d2, Direction::Still);
}

#[test]
fn most_constrained_first_lets_the_whole_fleet_move() {
    // Three own agents, resolved most-constrained first, all find a
    // move; resolved in the opposite order, the most constrained one
    // is crowded out and forced to stay.
    let a = ship(1, 0, 2, 1);
    let b = ship(2, 0, 1, 2);
    let c = ship(3, 0, 0, 3);
    let enemies =
        vec![ship(4, 1, 2, 0), ship(5, 1, 1, 1), ship(6, 1, 3, 1), ship(7, 1, 0, 2), ship(
            8, 1, 4, 3,
        )];
    let owner_ships = vec![ShipId(1), ShipId(2), ShipId(3)];
    let destinations = [pos(2, 2), pos(2, 3), pos(1, 4)];

    let mut navi = Navi::new(5, 5);
    let mut board = vec![a, b, c];
    board.extend(enemies.iter().cloned());
    navi.update_frame(&board);

    // the priority key orders a before b and c
    assert_eq!(navi.get_total_safe_moves(a.position), 1);
    assert_eq!(navi.get_total_safe_moves(b.position), 2);
    assert_eq!(navi.get_total_safe_moves(c.position), 2);

    let mut futures: Vec<Position> = Vec::new();
    let mut currents: Vec<Position> = Vec::new();
    let mut moved = Vec::new();
    for (s, dest) in [(a, destinations[0]), (b, destinations[1]), (c, destinations[2])] {
        currents.push(s.position);
        let d = navi.better_navigate(&s, &dest, &owner_ships, &futures, &currents);
        moved.push(d);
        let future = s.position.directional_offset(d);
        futures.push(navi.normalize(&future));
    }
    assert_eq!(moved, vec![Direction::South, Direction::South, Direction::South]);

    // same board, same destinations, reversed order: c and b take the
    // cells first and a is stranded with no safe move
    let mut navi = Navi::new(5, 5);
    navi.update_frame(&board);
    let mut futures: Vec<Position> = Vec::new();
    let mut currents: Vec<Position> = Vec::new();
    let mut moved = Vec::new();
    for (s, dest) in [(c, destinations[2]), (b, destinations[1]), (a, destinations[0])] {
        currents.push(s.position);
        let d = navi.better_navigate(&s, &dest, &owner_ships, &futures, &currents);
        moved.push(d);
        let future = s.position.directional_offset(d);
        futures.push(navi.normalize(&future));
    }
    assert_eq!(moved, vec![Direction::East, Direction::East, Direction::Still]);
}

#[test]
fn every_candidate_takes_one_step_off_the_distance() {
    let navi = Navi::new(10, 10);
    let pairs = [
        (pos(0, 0), pos(9, 0)),
        (pos(0, 0), pos(5, 0)),
        (pos(1, 1), pos(2, 2)),
        (pos(9, 9), pos(1, 2)),
        (pos(4, 7), pos(4, 1)),
    ];
    for (s, d) in pairs {
        let before = navi.calculate_distance(&s, &d);
        for dir in navi.get_unsafe_moves(&s, &d) {
            let stepped = s.directional_offset(dir);
            assert_eq!(navi.calculate_distance(&stepped, &d), before - 1);
        }
    }
}
