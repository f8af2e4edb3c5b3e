use faugus_launcher::compose::{compose, AppSettings};
use faugus_launcher::envar::parse_envar_content;
use faugus_launcher::envmap::EnvMap;
use faugus_launcher::game::Game;

fn test_game() -> Game {
    Game {
        gameid: "game-id-1".to_string(),
        title: "Portal".to_string(),
        path: "/games/portal.exe".to_string(),
        prefix: "/prefixes/portal".to_string(),
        ..Default::default()
    }
}

#[test]
fn test_compose_basic_layers() {
    let overrides = EnvMap::new();
    let game = test_game();
    let settings = AppSettings::default();
    let env = compose(&overrides, &game, "/compat/GE-Proton9-5", false, &settings);
    assert_eq!(env.get("WINEPREFIX"), Some(&"/prefixes/portal".to_string()));
    assert_eq!(env.get("PROTONPATH"), Some(&"/compat/GE-Proton9-5".to_string()));
    assert_eq!(env.get("GAMEID"), Some(&"game-id-1".to_string()));
    assert!(env.get("MANGOHUD").is_none());
    assert!(env.get("LSFG_LEGACY").is_none());
}

#[test]
fn test_compose_game_prefix_overrides_file() {
    let (overrides, _) = parse_envar_content("WINEPREFIX=/from/override/file");
    let game = test_game();
    let settings = AppSettings::default();
    let env = compose(&overrides, &game, "", false, &settings);
    assert_eq!(env.get("WINEPREFIX"), Some(&"/prefixes/portal".to_string()));
    assert!(env.get("PROTONPATH").is_none());
}

#[test]
fn test_compose_keeps_unrelated_overrides() {
    let (overrides, _) = parse_envar_content("DXVK_HUD=fps\nMANGOHUD_CONFIG=full");
    let game = test_game();
    let settings = AppSettings::default();
    let env = compose(&overrides, &game, "", false, &settings);
    assert_eq!(env.get("DXVK_HUD"), Some(&"fps".to_string()));
    assert_eq!(env.get("MANGOHUD_CONFIG"), Some(&"full".to_string()));
}

#[test]
fn test_compose_deterministic() {
    let (overrides, _) = parse_envar_content("B=2\nA=1");
    let game = test_game();
    let settings = AppSettings::default();
    let env1 = compose(&overrides, &game, "/r", true, &settings);
    let env2 = compose(&overrides, &game, "/r", true, &settings);
    assert_eq!(env1.to_pairs(), env2.to_pairs());
}

#[test]
fn test_compose_lossless_zero_multiplier_flow_off() {
    let overrides = EnvMap::new();
    let mut game = test_game();
    game.lossless_enabled = true;
    game.lossless_multiplier = 0;
    game.lossless_flow = false;
    let settings = AppSettings::default();
    let env = compose(&overrides, &game, "", false, &settings);
    assert_eq!(env.get("LSFG_LEGACY"), Some(&"1".to_string()));
    assert_eq!(env.get("LSFG_PERFORMANCE_MODE"), Some(&"0".to_string()));
    assert_eq!(env.get("LSFG_HDR_MODE"), Some(&"0".to_string()));
    assert!(env.get("LSFG_MULTIPLIER").is_none());
    assert!(env.get("LSFG_FLOW_SCALE").is_none());
}

#[test]
fn test_compose_flow_scale_present_only_when_toggled() {
    let overrides = EnvMap::new();
    let mut game = test_game();
    game.lossless_enabled = true;
    game.lossless_multiplier = 3;
    game.lossless_flow = true;
    game.lossless_performance = true;
    game.lossless_hdr = true;
    let settings = AppSettings::default();
    let env = compose(&overrides, &game, "", false, &settings);
    assert_eq!(env.get("LSFG_FLOW_SCALE"), Some(&"1.0".to_string()));
    assert_eq!(env.get("LSFG_MULTIPLIER"), Some(&"3".to_string()));
    assert_eq!(env.get("LSFG_PERFORMANCE_MODE"), Some(&"1".to_string()));
    assert_eq!(env.get("LSFG_HDR_MODE"), Some(&"1".to_string()));

    game.lossless_flow = false;
    let env2 = compose(&overrides, &game, "", false, &settings);
    assert!(env2.get("LSFG_FLOW_SCALE").is_none());
}

#[test]
fn test_compose_mangohud_needs_binary() {
    let overrides = EnvMap::new();
    let mut game = test_game();
    game.mangohud = true;
    let settings = AppSettings::default();
    let without_binary = compose(&overrides, &game, "", false, &settings);
    assert!(without_binary.get("MANGOHUD").is_none());
    let with_binary = compose(&overrides, &game, "", true, &settings);
    assert_eq!(with_binary.get("MANGOHUD"), Some(&"1".to_string()));
}

#[test]
fn test_compose_protonfix_disables_sync() {
    let overrides = EnvMap::new();
    let mut game = test_game();
    game.protonfix = "GOG-1234".to_string();
    let settings = AppSettings::default();
    let env = compose(&overrides, &game, "", false, &settings);
    assert_eq!(env.get("PROTON_NO_FSYNC"), Some(&"1".to_string()));
    assert_eq!(env.get("PROTON_NO_ESYNC"), Some(&"1".to_string()));
}

#[test]
fn test_compose_settings_toggles() {
    let overrides = EnvMap::new();
    let game = test_game();
    let settings = AppSettings {
        wayland_driver: true,
        enable_hdr: true,
        enable_wow64: true,
        discrete_gpu: true,
        enable_logging: true,
    };
    let env = compose(&overrides, &game, "", false, &settings);
    assert_eq!(env.get("PROTON_ENABLE_WAYLAND"), Some(&"1".to_string()));
    assert_eq!(env.get("ENABLE_HDR"), Some(&"1".to_string()));
    assert_eq!(env.get("PROTON_USE_WOW64"), Some(&"1".to_string()));
    assert_eq!(env.get("__GLX_VENDOR_LIBRARY_NAME"), Some(&"nvidia".to_string()));
    assert_eq!(env.get("WINEDEBUG"), Some(&"+all".to_string()));
    assert_eq!(env.get("WINE_MONO_TRACE"), Some(&"E:System.Windows.Forms".to_string()));
}

#[test]
fn test_compose_hidraw_disable() {
    let overrides = EnvMap::new();
    let mut game = test_game();
    game.disable_hidraw = true;
    let settings = AppSettings::default();
    let env = compose(&overrides, &game, "", false, &settings);
    assert_eq!(env.get("WINE_DISABLE_HIDRAW"), Some(&"1".to_string()));
}

#[test]
fn test_envmap_insert_overwrites() {
    let mut env = EnvMap::new();
    env.insert("KEY".to_string(), "one".to_string());
    env.insert("KEY".to_string(), "two".to_string());
    assert_eq!(env.len(), 1);
    assert_eq!(env.get("KEY"), Some(&"two".to_string()));
}
