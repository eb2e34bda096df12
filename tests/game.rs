use rust_snake::food::Food;
use rust_snake::game::{tick_delay_ms, GameLoop, GameState, TickOutcome};
use rust_snake::placement::{free_cells, pick_food, place_food};
use rust_snake::snake::{Direction, Point, RejectedReason, Snake};

fn no_overlap(cells: &Vec<Point>) -> bool {
    for i in 0..cells.len() {
        for j in 0..cells.len() {
            if i != j && cells[i] == cells[j] {
                return false;
            }
        }
    }
    true
}

#[test]
fn four_by_four_scenario() {
    let snake = Snake::new(1, 1, 4, 4);
    assert_eq!(snake.direction(), Direction::Right);
    let mut g = GameLoop::from_parts(snake, Food::new(3, 1));
    g.start();
    assert_eq!(g.tick(false), TickOutcome::Continued);
    assert_eq!(g.occupied_cells(), &vec![Point::new(2, 1)]);
    assert_eq!(g.tick(false), TickOutcome::Ate);
    assert_eq!(g.occupied_cells(), &vec![Point::new(3, 1), Point::new(2, 1)]);
    assert_eq!(g.state(), GameState::Running);
    let f = g.food();
    assert!(!g.occupied_cells().contains(&Point::new(f.x(), f.y())));
    assert_eq!(g.tick(false), TickOutcome::GameOver);
    assert_eq!(g.state(), GameState::GameOver);
    assert_eq!(g.snake().len(), 2);
}

#[test]
fn last_free_cell_wins() {
    let snake = Snake::new(0, 0, 2, 1);
    assert_eq!(snake.direction(), Direction::Right);
    let mut g = GameLoop::from_parts(snake, Food::new(1, 0));
    g.start();
    assert_eq!(g.tick(false), TickOutcome::Won);
    assert_eq!(g.state(), GameState::Win);
    assert_eq!(g.tick(false), TickOutcome::Won);
}

#[test]
fn left_wall_ends_the_round() {
    let mut snake = Snake::new(0, 1, 4, 4);
    snake.set_direction(Direction::Left).unwrap();
    let mut g = GameLoop::from_parts(snake, Food::new(3, 3));
    g.start();
    assert_eq!(g.tick(true), TickOutcome::GameOver);
    assert_eq!(g.state(), GameState::GameOver);
}

#[test]
fn food_is_never_placed_on_the_snake() {
    for _ in 0..50 {
        let snake = Snake::new(0, 0, 3, 1);
        let mut g = GameLoop::from_parts(snake, Food::new(1, 0));
        g.start();
        assert_eq!(g.tick(false), TickOutcome::Ate);
        assert_eq!(g.food(), Food::new(2, 0));
        assert_eq!(g.tick(false), TickOutcome::Won);
    }
}

#[test]
fn random_play_keeps_cells_distinct_and_food_free() {
    for round in 0..20 {
        let mut g = GameLoop::new(5, 4);
        g.start();
        let ways = [Direction::Up, Direction::Right, Direction::Down, Direction::Left];
        for step in 0..200 {
            if step % 3 == 0 {
                let turned = g.request_direction(ways[(step / 3 + round) % 4]);
                if turned.is_ok() {
                    g.tick(true);
                }
            }
            let before = g.snake().len();
            let r = g.tick(false);
            let cells = g.occupied_cells();
            assert!(no_overlap(cells));
            match r {
                TickOutcome::Continued => assert_eq!(cells.len(), before),
                TickOutcome::Ate => {
                    assert_eq!(cells.len(), before + 1);
                    let f = g.food();
                    assert!(!cells.contains(&Point::new(f.x(), f.y())));
                },
                TickOutcome::GameOver | TickOutcome::Won => break,
            }
        }
    }
}

#[test]
fn pause_and_idle_do_nothing() {
    let snake = Snake::new(1, 1, 4, 4);
    let mut g = GameLoop::from_parts(snake, Food::new(3, 3));
    assert_eq!(g.state(), GameState::Idle);
    assert_eq!(g.tick(false), TickOutcome::Continued);
    assert_eq!(g.occupied_cells(), &vec![Point::new(1, 1)]);
    assert_eq!(g.request_direction(Direction::Up), Ok(()));
    assert_eq!(g.snake().direction(), Direction::Right);
    g.start();
    assert_eq!(g.state(), GameState::Running);
    g.toggle_pause();
    assert_eq!(g.state(), GameState::Paused);
    assert_eq!(g.tick(false), TickOutcome::Continued);
    assert_eq!(g.occupied_cells(), &vec![Point::new(1, 1)]);
    g.toggle_pause();
    assert_eq!(g.state(), GameState::Running);
    assert_eq!(g.tick(false), TickOutcome::Continued);
    assert_eq!(g.occupied_cells(), &vec![Point::new(2, 1)]);
}

#[test]
fn request_direction_rejects_reverse() {
    let snake = Snake::new(0, 0, 4, 1);
    let mut g = GameLoop::from_parts(snake, Food::new(1, 0));
    g.start();
    assert_eq!(g.tick(false), TickOutcome::Ate);
    assert_eq!(g.request_direction(Direction::Left), Err(RejectedReason::ReverseIntoSelf));
    assert_eq!(g.snake().direction(), Direction::Right);
}

#[test]
fn new_and_restart_give_an_idle_round() {
    let mut g = GameLoop::new(6, 5);
    assert_eq!(g.state(), GameState::Idle);
    assert_eq!(g.snake().len(), 1);
    let f = g.food();
    assert!(!g.occupied_cells().contains(&Point::new(f.x(), f.y())));
    g.start();
    g.restart();
    assert_eq!(g.state(), GameState::Idle);
    assert_eq!(g.snake().len(), 1);
    let one = GameLoop::new(1, 1);
    assert_eq!(one.state(), GameState::Win);
}

#[test]
fn free_cells_lists_columns_then_rows() {
    let occupied = vec![Point::new(0, 1), Point::new(1, 0)];
    assert_eq!(
        free_cells(2, 3, &occupied),
        vec![Point::new(0, 0), Point::new(0, 2), Point::new(1, 1), Point::new(1, 2)]
    );
    let all = vec![Point::new(0, 0)];
    assert_eq!(free_cells(1, 1, &all), vec![]);
    assert_eq!(free_cells(0, 4, &vec![]), vec![]);
}

#[test]
fn pick_food_is_deterministic() {
    let free = vec![Point::new(0, 0), Point::new(1, 0), Point::new(2, 2)];
    assert_eq!(pick_food(&free, 1), Some(Food::new(1, 0)));
    assert_eq!(pick_food(&free, 5), Some(Food::new(2, 2)));
    assert_eq!(pick_food(&vec![], 3), None);
}

#[test]
fn place_food_reports_a_full_board() {
    let full = vec![Point::new(0, 0), Point::new(1, 0)];
    assert_eq!(place_food(2, 1, &full), None);
    let one_free = vec![Point::new(0, 0)];
    assert_eq!(place_food(2, 1, &one_free), Some(Food::new(1, 0)));
}

#[test]
fn tick_delay_shrinks_to_a_floor() {
    assert_eq!(tick_delay_ms(0), 210);
    assert_eq!(tick_delay_ms(1), 205);
    assert_eq!(tick_delay_ms(10), 160);
    assert_eq!(tick_delay_ms(39), 15);
    assert_eq!(tick_delay_ms(40), 10);
    assert_eq!(tick_delay_ms(1000), 10);
}
