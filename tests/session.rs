use minecraft_terminal_viewer::pool::ResourceStatus;
use minecraft_terminal_viewer::session::{
    display_name, identity_from_digest, on_status, user_identity, Admission, GameAction, GameWatch, MinecraftConfig,
};

#[test]
fn display_names_count_from_one() {
    assert_eq!(display_name(0), b":1".to_vec());
    assert_eq!(display_name(9), b":10".to_vec());
}

#[test]
fn status_lines() {
    let queued = on_status(&ResourceStatus::QueuePosition(0));
    assert_eq!(String::from_utf8(queued.message).unwrap(), "⏳ You are position 1 in queue\r\n");
    assert_eq!(queued.next, Admission::Wait);
    let success = on_status(&ResourceStatus::Success(3));
    assert_eq!(String::from_utf8(success.message).unwrap(), "✅ Assigned session 3\r\n");
    assert_eq!(success.next, Admission::Serve(3));
    let cancelled = on_status(&ResourceStatus::Cancelled);
    assert_eq!(String::from_utf8(cancelled.message).unwrap(), "❌ Request was cancelled\r\n");
    assert_eq!(cancelled.next, Admission::End);
    let failed = on_status(&ResourceStatus::Failed("Request cancelled".to_string()));
    assert_eq!(String::from_utf8(failed.message).unwrap(), "❌ Server error: Request cancelled\r\n");
    assert_eq!(failed.next, Admission::End);
}

#[test]
fn identity_is_digest_prefix() {
    assert_eq!(user_identity("abc"), "ba7816bf8f01");
    assert_eq!(identity_from_digest("0123456789abcdef"), "0123456789ab");
    assert_eq!(identity_from_digest("short"), "short");
}

#[test]
fn local_world_starts_in_absolute_mode() {
    let local = MinecraftConfig {
        xorg_display: ":1".to_string(),
        username: "docker".to_string(),
        server_address: String::new(),
    };
    assert!(local.absolute_mouse_by_default());
    let remote = MinecraftConfig { server_address: "mc.example:25565".to_string(), ..local };
    assert!(!remote.absolute_mouse_by_default());
}

#[test]
fn launch_arguments() {
    let mut config = MinecraftConfig {
        xorg_display: ":2".to_string(),
        username: "ba7816bf8f01".to_string(),
        server_address: String::new(),
    };
    assert_eq!(config.launch_args(), vec!["/root/launch_minecraft.py", "--username", "ba7816bf8f01"]);
    config.server_address = "mc.example".to_string();
    assert_eq!(
        config.launch_args(),
        vec!["/root/launch_minecraft.py", "--username", "ba7816bf8f01", "--server", "mc.example"]
    );
}

#[test]
fn game_exit_ends_session() {
    let mut watch = GameWatch::Running;
    assert_eq!(watch.step(false, true, 0), GameAction::Wait);
    assert_eq!(watch.step(true, true, 500), GameAction::EndSession);
    assert_eq!(watch, GameWatch::Finished);
    assert_eq!(watch.step(true, false, 1000), GameAction::Wait);
}

#[test]
fn session_end_stops_game_then_kills() {
    let mut watch = GameWatch::Running;
    assert_eq!(watch.step(false, false, 1000), GameAction::Terminate);
    assert_eq!(watch, GameWatch::Stopping(1000));
    assert_eq!(watch.step(false, false, 5999), GameAction::Wait);
    assert_eq!(watch.step(false, false, 6000), GameAction::Kill);
    assert_eq!(watch, GameWatch::Finished);
}

#[test]
fn game_exiting_during_grace_period_is_not_killed() {
    let mut watch = GameWatch::Running;
    watch.step(false, false, 0);
    assert_eq!(watch.step(true, false, 2000), GameAction::Wait);
    assert_eq!(watch, GameWatch::Finished);
}
