use moma::error::ErrorKind;
use moma::game::Game;
use moma::state::{context_from_trimmed, State};

#[test]
fn current_context_should_return_none_when_state_file_is_non_existent() {
    // Arrange
    let sut = State::new("temp".to_string());

    // Act
    let context = sut.current_context(None).unwrap();

    // Assert
    assert!(context.is_none());
}

#[test]
fn current_context_should_return_none_when_state_file_is_empty() {
    let sut = State::new("/tmp/state-file".to_string());

    let context = sut.current_context(Some("")).unwrap();

    assert!(context.is_none());
}

#[test]
fn current_context_should_return_err_when_state_file_is_invalid() {
    let sut = State::new("/tmp/state-file".to_string());

    let result = sut.current_context(Some("invalid"));

    assert!(result.is_err());
    assert_eq!(result.unwrap_err().kind, ErrorKind::Corrupt);
}

#[test]
fn current_context_should_return_game_when_state_file_is_valid() {
    let expected = Game::SkyrimSE;
    let sut = State::new("/tmp/state-file".to_string());

    let result = sut.current_context(Some(State::context_text(&expected))).unwrap();

    assert!(result.is_some());
    assert_eq!(result.unwrap(), expected);
}

#[test]
fn current_context_ignores_surrounding_whitespace() {
    let sut = State::new("/tmp/state-file".to_string());

    assert_eq!(sut.current_context(Some("  skyrimse\n")).unwrap(), Some(Game::SkyrimSE));
    assert_eq!(sut.current_context(Some(" \n\t")).unwrap(), None);
    assert_eq!(context_from_trimmed(" skyrimse").unwrap_err().kind, ErrorKind::Corrupt);
    assert_eq!(sut.state_file(), "/tmp/state-file");
}
