use duel::classes::{Player, PlayerRes};

#[test]
fn test_new_player() {
    let name = "Alice".to_string();
    let vitality = 60;
    let speed = 40;
    let strength = 70;
    let player = Player::new(name.clone(), vitality, speed, strength);
    assert_eq!(player.name, name);
    assert_eq!(player.vitality, vitality);
    assert_eq!(player.speed, speed);
    assert_eq!(player.strength, strength);
}

#[test]
fn test_default_player() {
    let player = Player::default();
    assert_eq!(player.name, "Joueur");
    assert_eq!(player.vitality, 50);
    assert_eq!(player.speed, 50);
    assert_eq!(player.strength, 50);
}

#[test]
fn test_default_player_res() {
    let res = PlayerRes::default();
    assert_eq!(res.counter, 0);
    assert_eq!(res.miss, 0);
}
