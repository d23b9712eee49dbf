use break_a_loop::level::Token;
use break_a_loop::player::Player;

#[test]
fn if_token_inserts_a_condition() {
    let token = Token::new("if", (1, 2));
    assert_eq!(token.format(), "if ($) $");
    assert_eq!(token.token(), "if");
}

#[test]
fn other_tokens_insert_themselves() {
    let token = Token::new("break;", (0, 0));
    assert_eq!(token.format(), "break;");
    assert_eq!(token.font_size(), 20);
    assert!(!token.finished());
}

#[test]
fn token_is_collected_once() {
    let mut token = Token::new("break;", (0, 0));
    assert!(!token.collect(None));
    assert_eq!(token.target(), None);
    assert!(token.collect(Some((5, 6))));
    assert!(!token.collect(Some((7, 8))));
    assert_eq!(token.target(), Some((5, 6)));
}

#[test]
fn token_finishes_on_arrival() {
    let mut token = Token::new("lagB();", (0, 0));
    token.move_to((1, 1), false);
    assert!(!token.finished());
    assert_eq!(token.position(), (1, 1));
    token.move_to((2, 2), true);
    assert!(token.finished());
}

#[test]
fn player_jumps_until_landing() {
    let mut player = Player::new((10, 20), (60, 80));
    assert!(!player.jumping());
    assert_eq!(player.jumps(), 2);
    assert!(player.try_jump());
    assert!(player.jumping());
    assert!(player.try_jump());
    assert!(!player.try_jump());
    assert_eq!(player.jumps(), 0);
    player.land();
    assert_eq!(player.jumps(), 2);
    assert!(!player.jumping());
}

#[test]
fn raised_limit_applies_on_landing() {
    let mut player = Player::new((0, 0), (1, 1));
    player.max_jumps = 4;
    assert!(player.jumping());
    player.land();
    assert_eq!(player.jumps(), 4);
    assert_eq!(player.position, (0, 0));
}

#[test]
fn new_player_is_at_rest() {
    let player = Player::new((3, 4), (60, 80));
    assert_eq!(player.velocity, (0, 0));
    assert_eq!(player.size, (60, 80));
    assert_eq!(player.max_jumps, 2);
    assert_eq!(player.jumps, 2);
}
