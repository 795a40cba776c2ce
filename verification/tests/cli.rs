use whep_player::cli::{log_level_for, Cli, Commands, LogLevel};
use whep_player::client::WhipClaims;

#[test]
fn verbosity_selects_log_level() {
    assert_eq!(log_level_for(0), LogLevel::Warn);
    assert_eq!(log_level_for(1), LogLevel::Info);
    assert_eq!(log_level_for(2), LogLevel::Debug);
    assert_eq!(log_level_for(3), LogLevel::Trace);
    assert_eq!(log_level_for(200), LogLevel::Trace);
}

#[test]
fn command_line_shape_carries_through() {
    let cli = Cli {
        commands: Commands::Stream { url: "http://a/whip".to_string(), token: Some("t".to_string()) },
        verbose: 2,
    };
    match cli.commands {
        Commands::Stream { url, token } => {
            assert_eq!(url, "http://a/whip");
            assert_eq!(token.as_deref(), Some("t"));
        }
        _ => panic!("expected the stream command"),
    }
    assert!(matches!(Commands::PlayWHIP {}, Commands::PlayWHIP {}));
    match (Commands::PlayWHEP { url: "u".to_string(), token: None }) {
        Commands::PlayWHEP { url, token } => {
            assert_eq!(url, "u");
            assert!(token.is_none());
        }
        _ => panic!("expected the play command"),
    }
}

#[test]
fn whip_claims_carry_url_and_id() {
    let claims = WhipClaims { whip_url: "http://a/whip".to_string(), jti: "id-1".to_string() };
    assert_eq!(claims.whip_url, "http://a/whip");
    assert_eq!(claims.jti, "id-1");
}
