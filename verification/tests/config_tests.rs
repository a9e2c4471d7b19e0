use wechat_cleaner::config::{
    CleaningMode, CleaningSettings, ConfigManager, ConfigSourceType, Keybindings, Settings,
    ThemeSettings, UiSettings, WechatSettings,
};
use wechat_cleaner::errors::Error;

#[test]
fn test_default_config() {
    let manager = ConfigManager::new().unwrap();
    let settings = manager.settings();

    assert!(
        settings
            .wechat
            .cache_patterns
            .contains(&r"\(\d+\)\.[a-zA-Z0-9]+$".to_string())
    );
    assert_eq!(settings.cleaning.default_mode, CleaningMode::Smart);
    assert_eq!(settings.cleaning.min_file_size, 1024);
    assert_eq!(settings.ui.theme.primary_color, "blue");
    assert_eq!(settings.ui.keybindings.quit, 'q');
}

#[test]
fn test_default_settings() {
    let settings = Settings::default();

    assert!(settings.wechat.cache_path.is_none());
    assert!(
        settings
            .wechat
            .cache_patterns
            .contains(&r"\(\d+\)\.[a-zA-Z0-9]+$".to_string())
    );
    assert_eq!(settings.cleaning.default_mode, CleaningMode::Smart);
    assert!(settings.cleaning.preserve_originals);
    assert_eq!(settings.cleaning.min_file_size, 1024);
    assert_eq!(settings.ui.theme.primary_color, "blue");
    assert_eq!(settings.ui.keybindings.quit, 'q');
}

#[test]
fn test_merge_wechat_settings() {
    let mut base = WechatSettings {
        cache_path: None,
        cache_patterns: "old_pattern".to_string(),
    };

    let other = WechatSettings {
        cache_path: Some("/new/path".to_string()),
        cache_patterns: "new_pattern".to_string(),
    };

    base.merge(other);

    assert_eq!(base.cache_path, Some("/new/path".to_string()));
    assert_eq!(base.cache_patterns, "new_pattern".to_string());
}

#[test]
fn test_merge_cleaning_settings() {
    let mut base = CleaningSettings {
        default_mode: CleaningMode::Smart,
        preserve_originals: true,
        min_file_size: 1024,
        scan_result_save_path: Some("/first/temp".to_string()),
    };

    let other = CleaningSettings {
        default_mode: CleaningMode::Auto,
        preserve_originals: false,
        min_file_size: 2048,
        scan_result_save_path: Some("/second/temp".to_string()),
    };

    base.merge(other);

    assert_eq!(base.default_mode, CleaningMode::Auto);
    assert!(!base.preserve_originals);
    assert_eq!(base.min_file_size, 2048);
    assert_eq!(base.scan_result_save_path, Some("/second/temp".to_string()));
}

#[test]
fn test_merge_theme_settings() {
    let mut base = ThemeSettings {
        primary_color: "blue".to_string(),
        secondary_color: "green".to_string(),
        highlight_color: "yellow".to_string(),
    };

    let other = ThemeSettings {
        primary_color: "red".to_string(),
        secondary_color: "green".to_string(),
        highlight_color: "purple".to_string(),
    };

    base.merge(other);

    assert_eq!(base.primary_color, "red");
    assert_eq!(base.secondary_color, "green");
    assert_eq!(base.highlight_color, "purple");
}

#[test]
fn test_merge_keybindings() {
    let mut base = Keybindings {
        quit: 'q',
        up: 'k',
        down: 'j',
        left: 'h',
        right: 'l',
        confirm: '\n',
        delete: 'd',
    };

    let other = Keybindings {
        quit: 'x',
        up: 'w',
        down: 'j',
        left: 'a',
        right: 's',
        confirm: '\n',
        delete: 'f',
    };

    base.merge(other);

    assert_eq!(base.quit, 'x');
    assert_eq!(base.up, 'w');
    assert_eq!(base.down, 'j');
    assert_eq!(base.left, 'a');
    assert_eq!(base.right, 's');
    assert_eq!(base.confirm, '\n');
    assert_eq!(base.delete, 'f');
}

#[test]
fn test_merge_complete_settings() {
    let mut base = Settings::default();

    let other = Settings {
        wechat: WechatSettings {
            cache_path: Some("/custom/path".to_string()),
            cache_patterns: "custom_pattern".to_string(),
        },
        cleaning: CleaningSettings {
            default_mode: CleaningMode::Auto,
            preserve_originals: false,
            min_file_size: 4096,
            scan_result_save_path: Some("/second/temp".to_string()),
        },
        ui: UiSettings {
            theme: ThemeSettings {
                primary_color: "purple".to_string(),
                secondary_color: "orange".to_string(),
                highlight_color: "cyan".to_string(),
            },
            keybindings: Keybindings {
                quit: 'x',
                up: 'w',
                down: 's',
                left: 'a',
                right: 'd',
                confirm: ' ',
                delete: 'r',
            },
        },
    };

    base.merge(other);

    assert_eq!(base.wechat.cache_path, Some("/custom/path".to_string()));
    assert_eq!(base.wechat.cache_patterns, "custom_pattern".to_string());
    assert_eq!(base.cleaning.default_mode, CleaningMode::Auto);
    assert!(!base.cleaning.preserve_originals);
    assert_eq!(base.cleaning.min_file_size, 4096);
    assert_eq!(base.ui.theme.primary_color, "purple");
    assert_eq!(base.ui.theme.secondary_color, "orange");
    assert_eq!(base.ui.theme.highlight_color, "cyan");
    assert_eq!(base.ui.keybindings.quit, 'x');
    assert_eq!(base.ui.keybindings.up, 'w');
}

#[test]
fn test_validate_rejects_large_floor() {
    let mut manager = ConfigManager::new().unwrap();
    manager.settings_mut().cleaning.min_file_size = 200 * 1024 * 1024;
    let result = manager.validate();
    assert!(matches!(result, Err(Error::ConfigurationInvalid(_))));
}

#[test]
fn test_validate_rejects_key_conflict() {
    let mut manager = ConfigManager::new().unwrap();
    manager.settings_mut().ui.keybindings.quit = 'a';
    manager.settings_mut().ui.keybindings.up = 'a';
    let result = manager.validate();
    assert!(matches!(result, Err(Error::ConfigurationInvalid(_))));
}

#[test]
fn test_validate_accepts_defaults() {
    let manager = ConfigManager::new().unwrap();
    assert!(manager.validate().is_ok());
}

#[test]
fn test_config_sources_tracking() {
    let manager = ConfigManager::new().unwrap();
    let sources = manager.config_sources();

    assert!(!sources.is_empty());
    assert_eq!(sources[0].source_type, ConfigSourceType::Default);
    assert_eq!(sources[0].path, "<built-in>".to_string());
}
