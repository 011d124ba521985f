use ledpanel::frame::Frame;
use ledpanel::game::Game;
use ledpanel::image::Image;
use ledpanel::pixel::Pixel;
use ledpanel::snake::{Block, Direction, Snake};

#[test]
fn directions_have_opposites() {
    assert_eq!(Direction::UP.opposite(), Direction::DOWN);
    assert_eq!(Direction::DOWN.opposite(), Direction::UP);
    assert_eq!(Direction::LEFT.opposite(), Direction::RIGHT);
    assert_eq!(Direction::RIGHT.opposite(), Direction::LEFT);
}

#[test]
fn new_snake_layout() {
    let snake = Snake::new(2, 2);
    assert_eq!(
        snake.body,
        vec![
            Block { x: 4, y: 2 },
            Block { x: 3, y: 2 },
            Block { x: 2, y: 2 },
            Block { x: 1, y: 1 },
            Block { x: 0, y: 0 }
        ]
    );
    assert_eq!(snake.head_position(), (4, 2));
    assert_eq!(snake.head_direction(), Direction::RIGHT);
}

#[test]
fn snake_moves_turns_and_restores_tail() {
    let mut snake = Snake::new(2, 2);
    assert_eq!(snake.next_head_position(None), (4, 3));
    assert_eq!(snake.next_head_position(Some(Direction::UP)), (3, 2));
    snake.move_forward(Some(Direction::DOWN));
    assert_eq!(snake.head_position(), (5, 2));
    assert_eq!(snake.head_direction(), Direction::DOWN);
    assert_eq!(snake.body.len(), 5);
    assert_eq!(snake.body[4], Block { x: 1, y: 1 });
    snake.restore_last_removed();
    assert_eq!(snake.body.len(), 6);
    assert_eq!(snake.body[5], Block { x: 0, y: 0 });
}

#[test]
fn overlap_ignores_the_tail() {
    let snake = Snake::new(2, 2);
    assert!(snake.is_overlap_except_tail(3, 2));
    assert!(snake.is_overlap_except_tail(1, 1));
    assert!(!snake.is_overlap_except_tail(0, 0));
    assert!(!snake.is_overlap_except_tail(9, 9));
}

#[test]
fn reverse_key_is_ignored_other_keys_move() {
    let mut game = Game::new();
    game.key_pressed(Some(Direction::LEFT));
    assert_eq!(game.snake.head_position(), (4, 2));
    game.key_pressed(None);
    assert_eq!(game.snake.head_position(), (4, 2));
    game.key_pressed(Some(Direction::DOWN));
    assert_eq!(game.snake.head_position(), (5, 2));
    assert!(!game.is_game_over());
}

#[test]
fn moves_on_period_and_dies_at_wall() {
    let mut game = Game::new();
    assert!(!game.update(150));
    assert_eq!(game.snake.head_position(), (4, 2));
    assert!(game.update(200));
    assert_eq!(game.snake.head_position(), (4, 3));
    assert!(game.check_if_the_snake_alive(Some(Direction::DOWN)));
    for _ in 0..40 {
        game.key_pressed(Some(Direction::UP));
    }
    assert!(game.is_game_over());
    assert!(!game.update(1000));
    assert!(game.is_game_over());
    assert!(!game.update(3000));
    assert!(!game.is_game_over());
    assert_eq!(game.snake.head_position(), (4, 2));
}

#[test]
fn food_lands_on_free_inner_cells() {
    let mut positions = Vec::new();
    for _ in 0..20 {
        let mut game = Game::new();
        game.food_exist = false;
        game.update(0);
        assert!(game.food_exist);
        assert!(game.food_x >= 1 && game.food_x < 15);
        assert!(game.food_y >= 1 && game.food_y < 31);
        assert!(!game.snake.is_overlap_except_tail(game.food_x, game.food_y));
        positions.push((game.food_x, game.food_y));
    }
    assert!(positions.iter().any(|p| *p != positions[0]));
}

#[test]
fn place_food_refuses_the_body() {
    let mut game = Game::new();
    assert!(!game.place_food(3, 2));
    assert_eq!((game.food_x, game.food_y), (5, 3));
    assert!(game.place_food(7, 7));
    assert_eq!((game.food_x, game.food_y), (7, 7));
}

#[test]
fn draw_shows_board_snake_and_food() {
    let game = Game::new();
    let mut frame = Frame::new();
    let picture = Image::new();
    game.draw(&mut frame, &picture);
    let border = Pixel::new_colored_pixel(230, 230, 230);
    assert_eq!(frame.pixels[0][0], border);
    assert_eq!(frame.pixels[4][2], Pixel::new_colored_pixel(0, 255, 0));
    assert_eq!(frame.pixels[5][3], Pixel::new_colored_pixel(255, 0, 0));
    assert_eq!(frame.pixels[8][8], Pixel::new());
    assert_eq!(frame.position(), 0);
}
