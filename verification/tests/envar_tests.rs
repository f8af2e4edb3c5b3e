use faugus_launcher::envar::{is_valid_env_var_key, parse_envar_content};

#[test]
fn test_parse_empty_content() {
    let (vars, warnings) = parse_envar_content("");
    assert!(vars.is_empty());
    assert!(warnings.is_empty());
}

#[test]
fn test_parse_simple_key_value() {
    let (vars, warnings) = parse_envar_content("KEY=value");
    assert_eq!(vars.get("KEY"), Some(&"value".to_string()));
    assert!(warnings.is_empty());
}

#[test]
fn test_parse_multiple_vars() {
    let content = "\nPATH=/usr/bin:/usr/local/bin\nHOME=/home/user\nEDITOR=vim\n";
    let (vars, warnings) = parse_envar_content(content);
    assert_eq!(vars.len(), 3);
    assert_eq!(
        vars.get("PATH"),
        Some(&"/usr/bin:/usr/local/bin".to_string())
    );
    assert_eq!(vars.get("HOME"), Some(&"/home/user".to_string()));
    assert_eq!(vars.get("EDITOR"), Some(&"vim".to_string()));
    assert!(warnings.is_empty());
}

#[test]
fn test_trim_whitespace() {
    let (vars, warnings) = parse_envar_content("  KEY  =  value  ");
    assert_eq!(vars.get("KEY"), Some(&"value".to_string()));
    assert!(warnings.is_empty());
}

#[test]
fn test_skip_comments_hash() {
    let (vars, warnings) = parse_envar_content("# This is a comment\nKEY=value");
    assert_eq!(vars.get("KEY"), Some(&"value".to_string()));
    assert!(warnings.is_empty());
}

#[test]
fn test_skip_comments_semicolon() {
    let (vars, warnings) = parse_envar_content("; This is a comment\nKEY=value");
    assert_eq!(vars.get("KEY"), Some(&"value".to_string()));
    assert!(warnings.is_empty());
}

#[test]
fn test_skip_empty_lines() {
    let (vars, warnings) = parse_envar_content("\n\nKEY=value\n\n");
    assert_eq!(vars.get("KEY"), Some(&"value".to_string()));
    assert!(warnings.is_empty());
}

#[test]
fn test_invalid_key_starts_with_number() {
    let (vars, warnings) = parse_envar_content("1INVALID=value");
    assert!(vars.is_empty());
    assert_eq!(warnings.len(), 1);
    assert!(warnings[0].message().contains("Invalid env var key"));
    assert!(warnings[0].message().contains("1INVALID"));
}

#[test]
fn test_invalid_key_with_dash() {
    let (vars, warnings) = parse_envar_content("INVALID-KEY=value");
    assert!(vars.is_empty());
    assert_eq!(warnings.len(), 1);
    assert!(warnings[0].message().contains("INVALID-KEY"));
}

#[test]
fn test_valid_key_with_numbers() {
    let (vars, warnings) = parse_envar_content("KEY123=value");
    assert_eq!(vars.get("KEY123"), Some(&"value".to_string()));
    assert!(warnings.is_empty());
}

#[test]
fn test_valid_key_with_underscore() {
    let (vars, warnings) = parse_envar_content("KEY_WITH_UNDERSCORE=value");
    assert_eq!(vars.get("KEY_WITH_UNDERSCORE"), Some(&"value".to_string()));
    assert!(warnings.is_empty());
}

#[test]
fn test_valid_key_all_caps() {
    let (vars, warnings) = parse_envar_content("ALLCAPSKEY=value");
    assert_eq!(vars.get("ALLCAPSKEY"), Some(&"value".to_string()));
    assert!(warnings.is_empty());
}

#[test]
fn test_value_with_equals() {
    let (vars, warnings) = parse_envar_content("KEY=value=with=equals");
    assert_eq!(vars.get("KEY"), Some(&"value=with=equals".to_string()));
    assert!(warnings.is_empty());
}

#[test]
fn test_empty_value() {
    let (vars, warnings) = parse_envar_content("KEY=");
    assert_eq!(vars.get("KEY"), Some(&"".to_string()));
    assert!(warnings.is_empty());
}

#[test]
fn test_no_separator() {
    let (vars, warnings) = parse_envar_content("INVALID_LINE");
    assert!(vars.is_empty());
    assert_eq!(warnings.len(), 1);
    assert!(warnings[0].message().contains("No '=' separator found"));
}

#[test]
fn test_partial_parse_with_errors() {
    let content = "\nVALID_KEY=value\n1INVALID=value\nANOTHER_VALID=value\n";
    let (vars, warnings) = parse_envar_content(content);
    assert_eq!(vars.len(), 2);
    assert_eq!(warnings.len(), 1);
    assert!(warnings[0].message().contains("1INVALID"));
    assert!(vars.contains_key("VALID_KEY"));
    assert!(vars.contains_key("ANOTHER_VALID"));
}

#[test]
fn test_is_valid_env_var_key() {
    assert!(is_valid_env_var_key("KEY"));
    assert!(is_valid_env_var_key("key"));
    assert!(is_valid_env_var_key("_KEY"));
    assert!(is_valid_env_var_key("KEY123"));
    assert!(is_valid_env_var_key("KEY_WITH_UNDERSCORE"));
    assert!(!is_valid_env_var_key(""));
    assert!(!is_valid_env_var_key("1KEY"));
    assert!(!is_valid_env_var_key("KEY-WITH-DASH"));
    assert!(!is_valid_env_var_key("KEY.WITH.DOT"));
    assert!(!is_valid_env_var_key("KEY WITH SPACE"));
}

#[test]
fn test_wine_prefix_env_var() {
    let content = "\n# Wine prefix setup\nWINEPREFIX=/home/user/.wine\nWINEDLLOVERRIDES=n,b;v\n";
    let (vars, warnings) = parse_envar_content(content);
    assert_eq!(
        vars.get("WINEPREFIX"),
        Some(&"/home/user/.wine".to_string())
    );
    assert_eq!(vars.get("WINEDLLOVERRIDES"), Some(&"n,b;v".to_string()));
    assert!(warnings.is_empty());
}

#[test]
fn test_realistic_envar_content() {
    let content = "\n# Faugus Launcher Environment Variables\n\n# Wine configuration\nWINEPREFIX=/home/user/.wine\nWINEDLLOVERRIDES=n,b;v\n\n# Proton settings\nPROTON_NO_ESYNC=1\nPROTON_NO_FSYNC=0\n\n# Graphics\nMANGOHUD_CONFIG=cpu_stats,gpu_stats\n\n# Game-specific\nGAME_LAUNCH_OPTIONS=-windowed -dx11\n";
    let (vars, warnings) = parse_envar_content(content);
    assert_eq!(vars.len(), 6);
    assert!(vars.contains_key("WINEPREFIX"));
    assert!(vars.contains_key("PROTON_NO_ESYNC"));
    assert!(vars.contains_key("MANGOHUD_CONFIG"));
    assert!(warnings.is_empty());
}

#[test]
fn test_override_scenario_mixed_lines() {
    let (vars, warnings) = parse_envar_content("# comment\nWINEPREFIX=/x\n1BAD=y\nFOO=bar");
    assert_eq!(vars.len(), 2);
    assert_eq!(vars.get("WINEPREFIX"), Some(&"/x".to_string()));
    assert_eq!(vars.get("FOO"), Some(&"bar".to_string()));
    assert_eq!(warnings.len(), 1);
    assert!(warnings[0].message().contains("1BAD"));
}

#[test]
fn test_duplicate_key_last_wins() {
    let (vars, warnings) = parse_envar_content("KEY=first\nKEY=second");
    assert_eq!(vars.len(), 1);
    assert_eq!(vars.get("KEY"), Some(&"second".to_string()));
    assert!(warnings.is_empty());
}

#[test]
fn test_warning_line_numbers() {
    let (_, warnings) = parse_envar_content("GOOD=1\nbad line\nALSO_GOOD=2\n-X=3");
    assert_eq!(warnings.len(), 2);
    assert!(warnings[0].message().starts_with("Line 2:"));
    assert!(warnings[1].message().starts_with("Line 4:"));
}
