use emulbot::config::Config;

fn sample() -> Config {
    Config {
        server: "irc.example.org".to_string(),
        port: 6697,
        nickname: "Emul".to_string(),
        admin: "Baughn".to_string(),
        nickserv_password: None,
        use_tls: true,
    }
}

#[test]
fn db_path_is_the_fixed_file() {
    assert_eq!(sample().db_path(), "emul_bot_memory.sqlite");
}

#[test]
fn prompt_path_is_the_fixed_file() {
    assert_eq!(sample().prompt_path(), "vorpal_bunny_prompt.txt");
}
