use uno_server::client::handler::{connect, disconnect, handle_action};
use uno_server::game::card::{Card, Color};
use uno_server::state::msg::{Action, DynMessage};
use uno_server::state::player::{Player, Role};
use uno_server::state::state_man::{Direction, GameState, Phase, ADMIN_NOTICE};

fn server(action: Action) -> DynMessage {
    DynMessage::new_msg(None, action)
}

fn lobby_of(ids: &[u128]) -> GameState {
    let mut state = GameState::new();
    for id in ids {
        state.join(*id, Player::new());
    }
    state
}

fn flush(state: &mut GameState) {
    for id in state.players.ids() {
        let _ = state.take_outbox(id);
    }
}

fn running_game(ids: &[u128]) -> GameState {
    let mut state = lobby_of(ids);
    assert!(state.start(ids[0]));
    flush(&mut state);
    state
}

#[test]
fn a_new_session_waits_in_the_lobby() {
    let state = GameState::new();
    assert_eq!(state.phase, Phase::Lobby);
    assert!(!state.in_game());
    assert_eq!(state.num_players(), 0);
    assert_eq!(state.direction(), Direction::Forward);
    assert_eq!(Direction::default(), Direction::Forward);
    assert_eq!(state.deck.deck_size(), 0);
    assert!(state.deck.get_facing().is_none());
}

#[test]
fn a_default_session_is_a_new_one() {
    let state = GameState::default();
    assert_eq!(state.phase, Phase::Lobby);
    assert_eq!(state.turn, 0);
    assert_eq!(state.num_players(), 0);
    assert_eq!(state.direction(), Direction::Forward);
    assert_eq!(state.deck.deck_size(), 0);
    assert_eq!(state.deck.discard_size(), 0);
    assert_eq!(state.deck.played_size(), 0);
}

#[test]
fn reverse_flips_the_direction_only() {
    let mut state = running_game(&[1, 2, 3]);
    let turn = state.turn;
    state.reverse();
    assert_eq!(state.direction(), Direction::Backward);
    assert_eq!(state.turn, turn);
    state.reverse();
    assert_eq!(state.direction(), Direction::Forward);
    assert_eq!(state.turn, turn);
}

#[test]
fn after_follows_the_joining_order() {
    let mut state = lobby_of(&[10, 20, 30]);
    assert_eq!(state.after(10), Some(20));
    assert_eq!(state.after(20), Some(30));
    assert_eq!(state.after(30), Some(10));
    assert_eq!(state.after(40), None);

    state.reverse();
    assert_eq!(state.after(10), Some(30));
    assert_eq!(state.after(30), Some(20));
    assert_eq!(state.after(20), Some(10));
    assert_eq!(state.after(40), None);
}

#[test]
fn after_of_a_single_player_is_that_player() {
    let mut state = lobby_of(&[7]);
    assert_eq!(state.after(7), Some(7));
    state.reverse();
    assert_eq!(state.after(7), Some(7));
    assert_eq!(GameState::new().after(7), None);
}

#[test]
fn a_step_forward_and_a_step_back_return() {
    for n in 2..=6u128 {
        let ids: Vec<u128> = (1..=n).map(|i| i * 11).collect();
        let mut state = lobby_of(&ids);
        for id in &ids {
            let forward = state.after(*id).unwrap();
            state.reverse();
            assert_eq!(state.after(forward), Some(*id));
            let backward = state.after(*id).unwrap();
            state.reverse();
            assert_eq!(state.after(backward), Some(*id));
        }
    }
}

#[test]
fn add_player_makes_the_first_one_admin() {
    let mut state = GameState::new();
    state.add_player(1, Player::new());
    state.add_player(2, Player::new());
    assert_eq!(state.num_players(), 2);
    assert_eq!(state.players.get(1).unwrap().role, Role::Admin);
    assert_eq!(state.players.get(2).unwrap().role, Role::User);
    assert_eq!(state.take_outbox(1), vec![]);
}

#[test]
fn the_first_to_join_is_told_that_they_are_admin() {
    let mut state = lobby_of(&[1, 2, 3]);
    assert_eq!(state.players.ids(), vec![1, 2, 3]);
    assert_eq!(state.players.get(1).unwrap().role, Role::Admin);
    assert_eq!(state.players.get(2).unwrap().role, Role::User);
    assert_eq!(state.players.get(3).unwrap().role, Role::User);
    assert_eq!(
        ADMIN_NOTICE,
        "You're admin! Please type START to start the game when you'd like"
    );
    assert_eq!(
        state.take_outbox(1),
        vec![server(Action::Message(String::from(ADMIN_NOTICE)))]
    );
    assert_eq!(state.take_outbox(2), vec![]);
    assert_eq!(state.take_outbox(3), vec![]);
    assert_eq!(state.phase, Phase::Lobby);
}

#[test]
fn connect_registers_a_new_player() {
    let mut state = GameState::new();
    let first = connect(&mut state);
    let second = connect(&mut state);
    assert_ne!(first, second);
    assert_eq!((first >> 76) & 0xf, 4);
    assert_eq!((second >> 62) & 0x3, 2);
    assert_eq!(state.players.ids(), vec![first, second]);
    assert_eq!(state.players.get(first).unwrap().role, Role::Admin);
    assert_eq!(state.players.get(second).unwrap().role, Role::User);
    assert_eq!(state.take_outbox(first).len(), 1);
    assert_eq!(state.take_outbox(second).len(), 0);
}

#[test]
fn scenario_three_players_start_a_game() {
    let mut state = GameState::new();
    let ids = [41u128, 42, 43];
    for id in ids {
        state.join(id, Player::new());
    }
    handle_action(&mut state, 41, Action::Start);

    assert_eq!(state.phase, Phase::InGame);
    assert!(state.in_game());
    assert_eq!(state.turn, 41);
    assert_eq!(state.deck.deck_size(), 3 * 108 - 3 * 7 - 1);
    assert_eq!(state.deck.discard_size(), 1);
    assert_eq!(state.deck.played_size(), 0);
    let top = *state.deck.get_facing().unwrap();

    let mut dealt = Vec::new();
    for id in ids {
        let hand = state.players.get(id).unwrap().hand().clone();
        assert_eq!(hand.len(), 7);
        let mut pending = state.take_outbox(id);
        if id == 41 {
            assert_eq!(
                pending.remove(0),
                server(Action::Message(String::from(ADMIN_NOTICE)))
            );
        }
        assert_eq!(pending.len(), 2);
        match &pending[0] {
            DynMessage { sender: None, action: Action::Started(cards) } => {
                assert_eq!(cards.to_vec(), hand);
            }
            other => panic!("expected the hand, got {:?}", other),
        }
        assert_eq!(pending[1], server(Action::TopCard(top)));
        dealt.extend(hand);
    }

    let mut all = dealt;
    all.push(top);
    while state.deck.deck_size() > 0 {
        all.push(state.deck.draw());
    }
    assert_eq!(all.len(), 3 * 108);
    let wilds = all.iter().filter(|c| **c == Card::Wild(Color::Unset)).count();
    assert_eq!(wilds, 12);
    let zeros = all.iter().filter(|c| **c == Card::Normal(Color::Blue, 0)).count();
    assert_eq!(zeros, 3);
}

#[test]
fn start_is_for_the_admin_in_the_lobby() {
    let mut state = lobby_of(&[1, 2]);
    flush(&mut state);

    assert!(!state.start(2));
    assert!(!state.start(3));
    assert_eq!(state.phase, Phase::Lobby);
    assert_eq!(state.deck.deck_size(), 0);
    assert_eq!(state.take_outbox(1), vec![]);
    assert_eq!(state.take_outbox(2), vec![]);

    assert!(state.start(1));
    assert_eq!(state.phase, Phase::InGame);
    let size = state.deck.deck_size();
    assert_eq!(size, 2 * 108 - 2 * 7 - 1);
    flush(&mut state);

    assert!(!state.start(1));
    assert_eq!(state.deck.deck_size(), size);
    assert_eq!(state.take_outbox(1), vec![]);
}

#[test]
fn scenario_an_illegal_card_is_denied() {
    let mut state = running_game(&[1, 2, 3]);
    state.deck.set_facing(Card::Normal(Color::Red, 9));
    let discarded = state.deck.discard_size();

    handle_action(&mut state, 1, Action::PlayCard(Card::Normal(Color::Yellow, 1)));

    assert_eq!(state.turn, 1);
    assert_eq!(state.deck.get_facing(), Some(&Card::Normal(Color::Red, 9)));
    assert_eq!(state.deck.discard_size(), discarded);
    assert_eq!(state.deck.played_size(), 0);
    assert_eq!(state.take_outbox(1), vec![server(Action::DenyPlayCard)]);
    assert_eq!(state.take_outbox(2), vec![]);
    assert_eq!(state.take_outbox(3), vec![]);
}

#[test]
fn scenario_a_legal_card_passes_the_turn() {
    let mut state = running_game(&[1, 2, 3]);
    state.set_name(1, "ada");
    state.deck.set_facing(Card::Normal(Color::Red, 9));
    let played = Card::Normal(Color::Red, 3);

    handle_action(&mut state, 1, Action::PlayCard(played));

    assert_eq!(state.turn, 2);
    assert_eq!(state.deck.get_facing(), Some(&played));
    assert_eq!(state.deck.played_size(), 1);
    let top = DynMessage::new_msg(Some(String::from("ada")), Action::TopCard(played));
    assert_eq!(
        state.take_outbox(1),
        vec![server(Action::AcceptPlayCard), top.clone()]
    );
    assert_eq!(state.take_outbox(2), vec![top.clone(), server(Action::YourTurn)]);
    assert_eq!(state.take_outbox(3), vec![top]);

    state.deck.set_facing(Card::Normal(Color::Red, 9));
    assert!(!state.play_card(1, played));
    assert!(!state.play_card(3, played));
    assert_eq!(state.turn, 2);
    assert_eq!(state.take_outbox(1), vec![]);
    assert_eq!(state.take_outbox(3), vec![]);

    state.reverse();
    assert!(!state.play_card(2, Card::Wild(Color::Blue)));
    assert_eq!(state.turn, 2);
    assert_eq!(state.deck.get_facing(), Some(&Card::Normal(Color::Red, 9)));
    assert_eq!(state.take_outbox(2), vec![server(Action::DenyPlayCard)]);
    assert_eq!(state.take_outbox(1), vec![]);
    assert_eq!(state.take_outbox(3), vec![]);

    assert!(state.play_card(2, Card::Wild(Color::Red)));
    assert_eq!(state.turn, 1);
    let top = DynMessage::new_msg(None, Action::TopCard(Card::Wild(Color::Red)));
    assert_eq!(
        state.take_outbox(2),
        vec![server(Action::AcceptPlayCard), top.clone()]
    );
    assert_eq!(state.take_outbox(1), vec![top.clone(), server(Action::YourTurn)]);
    assert_eq!(state.take_outbox(3), vec![top]);
}

#[test]
fn a_single_player_keeps_the_turn() {
    let mut state = running_game(&[5]);
    state.deck.set_facing(Card::Normal(Color::Red, 9));
    assert!(state.play_card(5, Card::Normal(Color::Red, 1)));
    assert_eq!(state.turn, 5);
    let top = server(Action::TopCard(Card::Normal(Color::Red, 1)));
    assert_eq!(
        state.take_outbox(5),
        vec![server(Action::AcceptPlayCard), top, server(Action::YourTurn)]
    );
}

#[test]
fn nothing_is_played_in_the_lobby() {
    let mut state = lobby_of(&[1, 2]);
    flush(&mut state);
    state.deck.set_facing(Card::Normal(Color::Red, 9));
    assert!(!state.play_card(1, Card::Normal(Color::Red, 1)));
    assert_eq!(state.draw_card(1), None);
    assert!(!state.report_win(1));
    assert_eq!(state.phase, Phase::Lobby);
    assert_eq!(state.take_outbox(1), vec![]);
    assert_eq!(state.take_outbox(2), vec![]);
    assert_eq!(state.deck.played_size(), 0);
}

#[test]
fn draw_card_goes_to_the_one_whose_turn_it_is() {
    let mut state = running_game(&[1, 2]);
    let size = state.deck.deck_size();

    assert_eq!(state.draw_card(2), None);
    assert_eq!(state.deck.deck_size(), size);
    assert_eq!(state.take_outbox(2), vec![]);

    handle_action(&mut state, 1, Action::DrawCard);
    assert_eq!(state.deck.deck_size(), size - 1);
    assert_eq!(state.turn, 1);
    let hand = state.players.get(1).unwrap().hand().clone();
    assert_eq!(hand.len(), 8);
    assert_eq!(state.take_outbox(1), vec![server(Action::DrawnCard(hand[7]))]);
    assert_eq!(state.take_outbox(2), vec![]);
    assert_eq!(state.players.get(2).unwrap().hand_size(), 7);

    let drawn = state.draw_card(1).unwrap();
    assert_eq!(state.players.get(1).unwrap().hand()[8], drawn);
    assert_eq!(state.take_outbox(1), vec![DynMessage::draw(drawn)]);
}

#[test]
fn draw_card_on_an_exhausted_deck_does_nothing() {
    let mut state = running_game(&[1]);
    while state.deck.deck_size() > 0 {
        let _ = state.deck.draw();
    }
    assert_eq!(state.deck.discard_size(), 1);
    assert_eq!(state.draw_card(1), None);
    assert_eq!(state.players.get(1).unwrap().hand_size(), 7);
    assert_eq!(state.take_outbox(1), vec![]);
    assert_eq!(state.phase, Phase::InGame);
}

#[test]
fn set_name_works_in_every_phase() {
    let mut state = lobby_of(&[1, 2]);
    handle_action(&mut state, 2, Action::SetName(String::from("grace")));
    assert_eq!(state.players.get(2).unwrap().get_name(), Some("grace"));
    assert_eq!(state.players.get(1).unwrap().get_name(), None);
    assert!(state.start(1));
    assert!(state.set_name(1, "ada"));
    assert!(!state.set_name(3, "nobody"));
    assert_eq!(state.players.get(1).unwrap().get_name(), Some("ada"));
    assert_eq!(state.players.get(2).unwrap().get_name(), Some("grace"));
    assert_eq!(state.num_players(), 2);
}

#[test]
fn chat_reaches_everyone_else() {
    let mut state = lobby_of(&[1, 2, 3]);
    flush(&mut state);

    handle_action(&mut state, 2, Action::Message(String::from("unheard")));
    for id in [1u128, 2, 3] {
        assert_eq!(state.take_outbox(id), vec![]);
    }

    state.set_name(2, "grace");
    handle_action(&mut state, 2, Action::Message(String::from("hello")));
    let line = DynMessage::new_msg(
        Some(String::from("grace")),
        Action::Message(String::from("hello")),
    );
    assert_eq!(state.take_outbox(1), vec![line.clone()]);
    assert_eq!(state.take_outbox(2), vec![]);
    assert_eq!(state.take_outbox(3), vec![line]);

    state.chat(9, String::from("nobody"));
    for id in [1u128, 2, 3] {
        assert_eq!(state.take_outbox(id), vec![]);
    }
}

#[test]
fn report_win_ends_a_running_game() {
    let mut state = running_game(&[1, 2]);
    assert!(!state.report_win(3));
    assert_eq!(state.phase, Phase::InGame);
    handle_action(&mut state, 2, Action::Win);
    assert_eq!(state.phase, Phase::Terminal);
    assert!(!state.in_game());
    assert!(!state.report_win(2));
    assert!(!state.start(1));
    assert_eq!(state.draw_card(1), None);
    assert_eq!(state.phase, Phase::Terminal);
}

#[test]
fn server_only_actions_are_ignored() {
    let mut state = running_game(&[1, 2]);
    let size = state.deck.deck_size();
    let card = Card::Normal(Color::Red, 1);
    for action in [
        Action::DrawnCard(card),
        Action::TopCard(card),
        Action::Started([card; 7]),
        Action::AcceptPlayCard,
        Action::DenyPlayCard,
        Action::YourTurn,
        Action::Skipped,
        Action::DrawFour([card; 4]),
        Action::DrawTwo([card; 2]),
    ] {
        handle_action(&mut state, 1, action);
    }
    assert_eq!(state.phase, Phase::InGame);
    assert_eq!(state.turn, 1);
    assert_eq!(state.deck.deck_size(), size);
    assert_eq!(state.take_outbox(1), vec![]);
    assert_eq!(state.take_outbox(2), vec![]);
}

#[test]
fn a_player_who_left_is_never_next() {
    let mut state = running_game(&[1, 2, 3]);
    disconnect(&mut state, 2);

    assert_eq!(state.players.ids(), vec![1, 3]);
    assert!(!state.players.contains(2));
    assert!(state.players.get(2).is_none());
    assert_eq!(state.after(1), Some(3));
    assert_eq!(state.after(3), Some(1));
    assert_eq!(state.after(2), None);
    state.reverse();
    assert_eq!(state.after(1), Some(3));
    assert_eq!(state.after(3), Some(1));

    let hello = DynMessage::broadcast("hello");
    state.broadcast(hello.clone());
    assert_eq!(state.take_outbox(1), vec![hello.clone()]);
    assert_eq!(state.take_outbox(3), vec![hello]);
    assert_eq!(state.take_outbox(2), vec![]);

    state.reverse();
    state.deck.set_facing(Card::Normal(Color::Red, 9));
    assert!(state.play_card(1, Card::Normal(Color::Red, 2)));
    assert_eq!(state.turn, 3);
}

#[test]
fn leave_hands_back_the_player() {
    let mut state = lobby_of(&[1, 2]);
    let gone = state.leave(1).unwrap();
    assert_eq!(gone.role, Role::Admin);
    assert!(state.leave(1).is_none());
    assert_eq!(state.num_players(), 1);
    assert_eq!(state.players.get(2).unwrap().role, Role::User);
}

#[test]
fn send_and_broadcast_fill_the_queues() {
    let mut state = lobby_of(&[1, 2, 3]);
    flush(&mut state);
    let one = DynMessage::broadcast("one");
    let two = DynMessage::top_card(Card::Skip(Color::Green));

    assert!(state.send_msg(2, &one));
    assert!(!state.send_msg(9, &one));
    state.broadcast_but(two.clone(), &[1]);
    state.broadcast(one.clone());

    assert_eq!(state.take_outbox(1), vec![one.clone()]);
    assert_eq!(state.take_outbox(2), vec![one.clone(), two.clone(), one.clone()]);
    assert_eq!(state.take_outbox(3), vec![two, one]);
}
