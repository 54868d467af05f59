use pawn::team::Team;

#[test]
fn print_team() {
    let team = Team::Black;
    println!("{:?}", team);
    assert_eq!(team.to_string(), String::from("black"));
}

#[test]
fn team_names_and_opponents() {
    assert_eq!(Team::White.to_string(), String::from("white"));
    assert_eq!(Team::White.opponent(), Team::Black);
    assert_eq!(Team::Black.opponent(), Team::White);
}
