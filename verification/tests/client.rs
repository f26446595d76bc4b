use uno_server::client::app_state::{AppState, Screen};
use uno_server::client::hand::Hand;
use uno_server::game::card::{Card, Color};
use uno_server::state::msg::{Action, DynMessage};

fn from_server(action: Action) -> DynMessage {
    DynMessage::new_msg(None, action)
}

fn lines(state: &AppState) -> Vec<String> {
    state.messages.iter().cloned().collect()
}

#[test]
fn a_default_hand_is_empty() {
    let hand = Hand::default();
    assert!(hand.cards.is_empty());
    assert_eq!(hand.last_choice, None);
}

#[test]
fn add_appends_in_order() {
    let mut hand = Hand::default();
    hand.add(&[Card::Skip(Color::Red), Card::Wild(Color::Unset)]);
    hand.add(&[]);
    hand.add(&[Card::Normal(Color::Blue, 1)]);
    assert_eq!(
        hand.cards,
        vec![
            Card::Skip(Color::Red),
            Card::Wild(Color::Unset),
            Card::Normal(Color::Blue, 1)
        ]
    );
    assert_eq!(hand.last_choice, None);
}

#[test]
fn select_sends_a_colored_card_as_it_is() {
    let mut hand = Hand::default();
    hand.add(&[Card::Skip(Color::Red), Card::Normal(Color::Blue, 1)]);
    assert_eq!(
        hand.select(1, Color::Unset),
        Some(Action::PlayCard(Card::Normal(Color::Blue, 1)))
    );
    assert_eq!(hand.last_choice, Some(1));
    assert_eq!(
        hand.select(0, Color::Green),
        Some(Action::PlayCard(Card::Skip(Color::Red)))
    );
    assert_eq!(hand.last_choice, Some(0));
    assert_eq!(hand.cards.len(), 2);
}

#[test]
fn select_gives_a_wild_card_the_picked_color() {
    let mut hand = Hand::default();
    hand.add(&[Card::Wild(Color::Unset), Card::DrawFour(Color::Unset), Card::Wild(Color::Red)]);

    assert_eq!(hand.select(0, Color::Unset), None);
    assert_eq!(hand.select(1, Color::Unset), None);
    assert_eq!(hand.last_choice, None);

    assert_eq!(
        hand.select(0, Color::Green),
        Some(Action::PlayCard(Card::Wild(Color::Green)))
    );
    assert_eq!(hand.last_choice, Some(0));
    assert_eq!(
        hand.select(1, Color::Blue),
        Some(Action::PlayCard(Card::DrawFour(Color::Blue)))
    );
    assert_eq!(hand.last_choice, Some(1));
    assert_eq!(
        hand.select(2, Color::Blue),
        Some(Action::PlayCard(Card::Wild(Color::Red)))
    );
    assert_eq!(hand.cards[0], Card::Wild(Color::Unset));
}

#[test]
fn select_beyond_the_hand_chooses_nothing() {
    let mut hand = Hand::default();
    assert_eq!(hand.select(0, Color::Red), None);
    hand.add(&[Card::Skip(Color::Red)]);
    assert_eq!(hand.select(0, Color::Red), Some(Action::PlayCard(Card::Skip(Color::Red))));
    assert_eq!(hand.select(1, Color::Red), None);
    assert_eq!(hand.last_choice, Some(0));
    assert_eq!(hand.select(0, Color::Red).is_some(), true);
    hand.cards[0] = Card::Normal(Color::Unset, 4);
    hand.last_choice = None;
    assert_eq!(hand.select(0, Color::Red), None);
    assert_eq!(hand.last_choice, None);
}

#[test]
fn accept_removes_the_chosen_card() {
    let mut hand = Hand::default();
    hand.add(&[Card::Skip(Color::Red), Card::Normal(Color::Blue, 1)]);
    assert!(!hand.accept());
    assert_eq!(hand.cards.len(), 2);

    hand.select(0, Color::Unset);
    assert!(!hand.accept());
    assert_eq!(hand.cards, vec![Card::Normal(Color::Blue, 1)]);
    assert_eq!(hand.last_choice, None);

    hand.select(0, Color::Unset);
    assert!(hand.accept());
    assert!(hand.cards.is_empty());
    assert_eq!(hand.last_choice, None);
    assert!(!hand.accept());
}

#[test]
fn accept_with_a_stale_choice_removes_nothing() {
    let mut hand = Hand::default();
    hand.add(&[Card::Skip(Color::Red)]);
    hand.last_choice = Some(4);
    assert!(!hand.accept());
    assert_eq!(hand.cards.len(), 1);
    assert_eq!(hand.last_choice, None);
}

#[test]
fn deny_and_clear() {
    let mut hand = Hand::default();
    hand.add(&[Card::Skip(Color::Red)]);
    hand.select(0, Color::Unset);
    hand.deny();
    assert_eq!(hand.last_choice, None);
    assert_eq!(hand.cards.len(), 1);
    hand.select(0, Color::Unset);
    hand.clear();
    assert!(hand.cards.is_empty());
    assert_eq!(hand.last_choice, Some(0));
}

#[test]
fn a_new_client_asks_for_the_name() {
    let state = AppState::new();
    assert_eq!(state.screen, Screen::Input);
    assert_eq!(state.input, "");
    assert_eq!(state.chat_input, "");
    assert!(state.messages.is_empty());
    assert!(state.hand.cards.is_empty());
    assert_eq!(state.hand.last_choice, None);
    assert_eq!(state.top_card, Card::Wild(Color::Red));
    assert_eq!(state.selected, 0);
    assert_eq!(state.wild_color, Color::Unset);
    assert!(!state.won);
}

#[test]
fn chat_becomes_lines() {
    let mut state = AppState::new();
    state.receive(DynMessage::broadcast("welcome"));
    state.receive(DynMessage::new_msg(
        Some(String::from("ada")),
        Action::Message(String::from("hello")),
    ));
    state.receive(from_server(Action::YourTurn));
    state.receive(from_server(Action::Skipped));
    state.receive(DynMessage::new_msg(
        Some(String::from("ada")),
        Action::PlayCard(Card::Normal(Color::Red, 3)),
    ));
    state.receive(from_server(Action::PlayCard(Card::Wild(Color::Unset))));
    assert_eq!(
        lines(&state),
        vec![
            "welcome",
            "ada: hello",
            "It's your turn!",
            "YOU GOT SKIPPED BOY",
            "ada:  played Red 3",
            " played Wild",
        ]
    );
    assert_eq!(state.screen, Screen::Input);
}

#[test]
fn a_started_game_fills_the_hand() {
    let mut state = AppState::new();
    let card = Card::Normal(Color::Green, 5);
    let mut hand = [card; 7];
    hand[6] = Card::Skip(Color::Red);
    state.receive(from_server(Action::Started(hand)));
    assert_eq!(state.screen, Screen::InGame);
    assert_eq!(state.hand.cards, hand.to_vec());

    state.receive(from_server(Action::TopCard(Card::Reverse(Color::Blue))));
    assert_eq!(state.top_card, Card::Reverse(Color::Blue));

    state.receive(from_server(Action::DrawnCard(Card::Wild(Color::Unset))));
    assert_eq!(state.hand.cards.len(), 8);
    assert_eq!(state.hand.cards[7], Card::Wild(Color::Unset));

    state.receive(from_server(Action::DrawTwo([Card::Skip(Color::Blue); 2])));
    state.receive(from_server(Action::DrawFour([Card::Skip(Color::Green); 4])));
    assert_eq!(state.hand.cards.len(), 14);
    assert_eq!(state.hand.cards[9], Card::Skip(Color::Blue));
    assert_eq!(state.hand.cards[13], Card::Skip(Color::Green));
    assert!(!state.won);
}

#[test]
fn an_accepted_play_leaves_the_hand() {
    let mut state = AppState::new();
    state.receive(from_server(Action::DrawnCard(Card::Skip(Color::Red))));
    state.receive(from_server(Action::DrawnCard(Card::Wild(Color::Unset))));

    state.receive(from_server(Action::AcceptPlayCard));
    assert_eq!(state.hand.cards.len(), 2);
    assert!(!state.won);

    state.selected = 1;
    assert_eq!(state.play_selected(), None);
    state.wild_color = Color::Yellow;
    assert_eq!(
        state.play_selected(),
        Some(Action::PlayCard(Card::Wild(Color::Yellow)))
    );
    assert_eq!(state.hand.last_choice, Some(1));
    state.receive(from_server(Action::DenyPlayCard));
    assert_eq!(state.hand.last_choice, None);
    assert_eq!(state.hand.cards.len(), 2);

    state.play_selected();
    state.receive(from_server(Action::AcceptPlayCard));
    assert_eq!(state.hand.cards, vec![Card::Skip(Color::Red)]);
    assert!(!state.won);

    state.selected = 0;
    state.play_selected();
    state.receive(from_server(Action::AcceptPlayCard));
    assert!(state.hand.cards.is_empty());
    assert!(state.won);

    state.receive(from_server(Action::Win));
    assert!(!state.won);
    assert_eq!(state.screen, Screen::Action);
    assert!(state.hand.cards.is_empty());
}

#[test]
fn requests_of_clients_change_nothing() {
    let mut state = AppState::new();
    state.receive(from_server(Action::DrawnCard(Card::Skip(Color::Red))));
    state.receive(from_server(Action::Start));
    state.receive(from_server(Action::DrawCard));
    state.receive(from_server(Action::SetName(String::from("ada"))));
    assert_eq!(state.screen, Screen::Input);
    assert_eq!(state.hand.cards.len(), 1);
    assert!(state.messages.is_empty());
}

#[test]
fn the_cursor_goes_round_the_hand() {
    let mut state = AppState::new();
    state.select_left();
    assert_eq!(state.selected, 0);
    state.select_right();
    assert_eq!(state.selected, 0);

    state.hand.add(&[Card::Skip(Color::Red); 3]);
    state.select_left();
    assert_eq!(state.selected, 2);
    state.select_left();
    assert_eq!(state.selected, 1);
    state.select_right();
    assert_eq!(state.selected, 2);
    state.select_right();
    assert_eq!(state.selected, 0);
    state.select_right();
    assert_eq!(state.selected, 1);
    state.selected = 9;
    state.select_right();
    assert_eq!(state.selected, 0);
}
