use faugus_launcher::dialog::ConfirmationDialog;
use faugus_launcher::game::{find_game_by_id, Game};
use faugus_launcher::launcher::{parse_args, GameLauncher};
use faugus_launcher::registry::GameProcess;

#[derive(Debug, Clone, PartialEq)]
enum TestMessage {
    CloseAddGameDialog,
    CloseSettingsDialog,
}

fn create_test_game(id: &str, title: &str) -> Game {
    Game {
        gameid: id.to_string(),
        title: title.to_string(),
        path: "/tmp/test.exe".to_string(),
        prefix: "/tmp/prefix".to_string(),
        ..Default::default()
    }
}

#[test]
fn test_parse_args_valid() {
    let args = vec![
        "faugus-run".to_string(),
        "--game".to_string(),
        "test-id".to_string(),
    ];

    let result = parse_args(&args);
    assert!(result.is_ok());
    assert_eq!(
        result.expect("Should have returned Ok"),
        "test-id".to_string()
    );
}

#[test]
fn test_parse_args_missing_flag() {
    let args = vec![
        "faugus-run".to_string(),
        "--invalid".to_string(),
        "test-id".to_string(),
    ];

    let result = parse_args(&args);
    assert!(result.is_err());
    let error_msg = result.expect_err("Should return error").message().to_string();
    assert!(error_msg.contains("Unknown flag"));
    assert!(error_msg.contains("--game"));
}

#[test]
fn test_parse_args_wrong_arg_count() {
    let args = vec!["faugus-run".to_string(), "--game".to_string()];

    let result = parse_args(&args);
    assert!(result.is_err());
    let error_msg = result.expect_err("Should return error").message().to_string();
    assert!(error_msg.contains("Usage"));
}

#[test]
fn test_find_game_by_id_success() {
    let game1 = create_test_game("game-1", "Game One");
    let game2 = create_test_game("game-2", "Game Two");
    let games = vec![game1, game2];

    let found = find_game_by_id(&games, "game-1");
    assert!(found.is_ok());
    let game = found.expect("Game should be found");
    assert_eq!(game.gameid, "game-1");
    assert_eq!(game.title, "Game One");
}

#[test]
fn test_find_game_by_id_not_found() {
    let game1 = create_test_game("game-1", "Game One");
    let games = vec![game1];

    let found = find_game_by_id(&games, "nonexistent");
    assert!(found.is_err());
    let error_msg = found.expect_err("Should return error").message().to_string();
    assert!(error_msg.contains("Game not found"));
}

#[test]
fn test_find_game_by_id_empty_list() {
    let games: Vec<Game> = vec![];

    let found = find_game_by_id(&games, "any-id");
    assert!(found.is_err());
    let error_msg = found.expect_err("Should return error").message().to_string();
    assert!(error_msg.contains("Game not found"));
}

#[test]
fn test_game_load_all_empty() {
    let empty_games: Vec<Game> = vec![];
    assert!(empty_games.is_empty());
}

#[test]
fn test_confirmation_dialog_creation() {
    let dialog = ConfirmationDialog::new(
        "Test Title".to_string(),
        "Test Message".to_string(),
        TestMessage::CloseAddGameDialog,
        TestMessage::CloseSettingsDialog,
    );

    assert_eq!(dialog.title, "Test Title");
    assert_eq!(dialog.message, "Test Message");
}

#[test]
fn test_delete_confirmation_message() {
    let dialog = ConfirmationDialog::delete_confirmation(
        "Portal".to_string(),
        TestMessage::CloseAddGameDialog,
        TestMessage::CloseSettingsDialog,
    );
    assert_eq!(dialog.title, "Confirm");
    assert_eq!(dialog.message, "Game: Portal\nThis action cannot be undone.");
    assert_eq!(dialog.on_confirm, TestMessage::CloseAddGameDialog);
}

#[test]
fn test_build_arguments_tokenizes() {
    let mut game = create_test_game("id", "Game");
    game.path = "/games/app.exe".to_string();
    game.launch_arguments = " -no-dwrite  -windowed ".to_string();
    game.game_arguments = "--level 3".to_string();
    let args = GameLauncher::build_arguments(&game);
    assert_eq!(
        args,
        vec![
            "/games/app.exe".to_string(),
            "-no-dwrite".to_string(),
            "-windowed".to_string(),
            "--level".to_string(),
            "3".to_string(),
        ]
    );
}

#[test]
fn test_build_arguments_empty_extras() {
    let mut game = create_test_game("id", "Game");
    game.path = "/games/app.exe".to_string();
    let args = GameLauncher::build_arguments(&game);
    assert_eq!(args, vec!["/games/app.exe".to_string()]);
}

#[test]
fn test_get_umu_run_prefers_configured() {
    let r = GameLauncher::get_umu_run(
        "/opt/umu/umu-run".to_string(),
        true,
        Some("/usr/bin/umu-run".to_string()),
    );
    assert_eq!(r.expect("configured path exists"), "/opt/umu/umu-run");
}

#[test]
fn test_get_umu_run_falls_back_to_path() {
    let r = GameLauncher::get_umu_run(
        "/opt/umu/umu-run".to_string(),
        false,
        Some("/usr/bin/umu-run".to_string()),
    );
    assert_eq!(r.expect("found on the path"), "/usr/bin/umu-run");
}

#[test]
fn test_get_umu_run_missing() {
    let r = GameLauncher::get_umu_run("/opt/umu/umu-run".to_string(), false, None);
    let e = r.expect_err("nothing found");
    assert!(e.message().contains("umu-run not found"));
}

#[test]
fn test_registry_record_then_lookup() {
    let mut processes: Vec<GameProcess> = Vec::new();
    let p = GameProcess {
        game_title: "Portal".to_string(),
        main_pid: 4242,
        umu_pid: None,
    };
    GameLauncher::save_process(&mut processes, &p);
    let found = GameLauncher::get_game_process(&processes, "Portal")
        .expect("recorded process is found");
    assert_eq!(found.main_pid, 4242);
    assert_eq!(found.game_title, "Portal");
}

#[test]
fn test_registry_forget_then_lookup() {
    let mut processes: Vec<GameProcess> = Vec::new();
    let p = GameProcess {
        game_title: "Portal".to_string(),
        main_pid: 4242,
        umu_pid: None,
    };
    GameLauncher::save_process(&mut processes, &p);
    GameLauncher::remove_process(&mut processes, "Portal");
    assert!(GameLauncher::get_game_process(&processes, "Portal").is_none());
}

#[test]
fn test_recency_list_caps_at_ten() {
    let mut titles: Vec<String> = Vec::new();
    let names = [
        "a", "b", "c", "d", "e", "f", "g", "h", "i", "j", "k", "l",
    ];
    for name in names {
        GameLauncher::update_latest_games(&mut titles, name);
    }
    assert_eq!(titles.len(), 10);
    assert_eq!(titles[0], "l");
    assert!(!titles.contains(&"a".to_string()));
    assert!(!titles.contains(&"b".to_string()));
}

#[test]
fn test_recency_list_moves_to_front_without_duplicate() {
    let mut titles: Vec<String> = Vec::new();
    GameLauncher::update_latest_games(&mut titles, "one");
    GameLauncher::update_latest_games(&mut titles, "two");
    GameLauncher::update_latest_games(&mut titles, "one");
    assert_eq!(titles, vec!["one".to_string(), "two".to_string()]);
}

#[test]
fn test_game_save_updates_existing_entry() {
    let mut games: Vec<Game> = Vec::new();
    let mut g = create_test_game("id-1", "Original");
    g.save(&mut games);
    g.title = "Renamed".to_string();
    g.save(&mut games);
    assert_eq!(games.len(), 1);
    assert_eq!(games[0].title, "Renamed");
}

#[test]
fn test_game_delete_removes_entry() {
    let mut games: Vec<Game> = Vec::new();
    let g1 = create_test_game("id-1", "One");
    let g2 = create_test_game("id-2", "Two");
    g1.save(&mut games);
    g2.save(&mut games);
    g1.delete(&mut games);
    assert_eq!(games.len(), 1);
    assert_eq!(games[0].gameid, "id-2");
}

#[test]
fn test_game_update_hidden() {
    let mut games: Vec<Game> = Vec::new();
    let g = create_test_game("id-1", "One");
    g.save(&mut games);
    g.update_hidden(true, &mut games);
    assert!(games[0].hidden);
    assert_eq!(games[0].title, "One");
}

#[test]
fn test_format_playtime_hours_and_minutes() {
    let mut g = create_test_game("id", "Game");
    g.playtime = 3725;
    assert_eq!(g.format_playtime(), "1h 2m");
    g.playtime = 120;
    assert_eq!(g.format_playtime(), "2m");
    g.playtime = 0;
    assert_eq!(g.format_playtime(), "0m");
}

#[test]
fn test_add_playtime_accumulates() {
    let mut g = create_test_game("id", "Game");
    g.add_playtime(100);
    g.add_playtime(50);
    assert_eq!(g.playtime, 150);
}

#[test]
fn test_game_default_has_fresh_id() {
    let g = Game::default();
    assert_eq!(g.gameid.len(), 36);
    assert_eq!(g.runner, "GE-Proton");
    assert_eq!(g.lossless_multiplier, 2);
    let g2 = Game::default();
    assert_ne!(g.gameid, g2.gameid);
}

#[test]
fn test_game_duplicate_gets_copy_suffix() {
    let g = create_test_game("id-1", "Portal");
    let copy = g.duplicate();
    assert_eq!(copy.title, "Portal (Copy)");
    assert_eq!(copy.playtime, 0);
    assert_ne!(copy.gameid, g.gameid);
    assert_eq!(copy.path, g.path);
}

#[test]
fn test_game_config_round_trip() {
    let g = create_test_game("id-1", "Portal");
    let config = g.duplicate_exact().to_config();
    assert_eq!(config.gameid, Some("id-1".to_string()));
    let back = Game::from_config(config);
    assert_eq!(back.gameid, "id-1");
    assert_eq!(back.title, "Portal");
}
