use emulbot::admin::{
    admin_actions, interpret_command, normalize_channel, read_admin_command, store_request,
    AdminCommand, BotAction, StoreAnswer, StoreRequest, Usage,
};

fn reply(text: &str) -> BotAction {
    BotAction::Reply(text.to_string())
}

#[test]
fn strangers_are_refused() {
    let command = read_admin_command(false, "eve", "!join #secret");
    assert_eq!(command, AdminCommand::Refused);
    assert_eq!(store_request(&command), None);
    assert_eq!(
        admin_actions(&command, &StoreAnswer::Nothing, false),
        vec![reply("Sorry, I only take commands from registered admins, desu~")]
    );
}

#[test]
fn commands_are_read() {
    assert_eq!(read_admin_command(true, "bob", "!join #rust"), AdminCommand::Join("#rust".to_string()));
    assert_eq!(read_admin_command(true, "bob", "!JOIN rust now"), AdminCommand::Join("#rust".to_string()));
    assert_eq!(read_admin_command(true, "bob", "  !part   rust  "), AdminCommand::Part("#rust".to_string()));
    assert_eq!(read_admin_command(true, "bob", "!join"), AdminCommand::Usage(Usage::Join));
    assert_eq!(read_admin_command(true, "bob", "!part "), AdminCommand::Usage(Usage::Part));
    assert_eq!(read_admin_command(true, "bob", "!add_admin eve"), AdminCommand::AddAdmin("eve".to_string()));
    assert_eq!(read_admin_command(true, "bob", "!add_admin"), AdminCommand::Usage(Usage::AddAdmin));
    assert_eq!(read_admin_command(true, "bob", "!del_admin eve"), AdminCommand::DelAdmin("eve".to_string()));
    assert_eq!(read_admin_command(true, "bob", "!del_admin BOB"), AdminCommand::RemoveSelf);
    assert_eq!(read_admin_command(true, "bob", "!del_admin"), AdminCommand::Usage(Usage::DelAdmin));
    assert_eq!(read_admin_command(true, "bob", "!admins"), AdminCommand::ListAdmins);
    assert_eq!(read_admin_command(true, "bob", "!channels extra"), AdminCommand::ListChannels);
    assert_eq!(read_admin_command(true, "bob", "!Interject"), AdminCommand::Interject);
    assert_eq!(read_admin_command(true, "bob", "!help"), AdminCommand::Help);
    assert_eq!(read_admin_command(true, "bob", "hello"), AdminCommand::Unknown);
    assert_eq!(read_admin_command(true, "bob", ""), AdminCommand::Unknown);
    assert_eq!(read_admin_command(true, "bob", "   "), AdminCommand::Unknown);
    assert_eq!(interpret_command("!JOIN", "x", "bob"), AdminCommand::Unknown);
}

#[test]
fn channel_names_get_their_sign() {
    assert_eq!(normalize_channel("rust"), "#rust");
    assert_eq!(normalize_channel("#rust"), "#rust");
    assert_eq!(normalize_channel("##rust"), "##rust");
}

#[test]
fn commands_ask_the_store() {
    assert_eq!(
        store_request(&AdminCommand::Join("#a".to_string())),
        Some(StoreRequest::AddChannel("#a".to_string()))
    );
    assert_eq!(
        store_request(&AdminCommand::Part("#a".to_string())),
        Some(StoreRequest::RemoveChannel("#a".to_string()))
    );
    assert_eq!(
        store_request(&AdminCommand::AddAdmin("eve".to_string())),
        Some(StoreRequest::AddAdmin("eve".to_string()))
    );
    assert_eq!(
        store_request(&AdminCommand::DelAdmin("eve".to_string())),
        Some(StoreRequest::RemoveAdmin("eve".to_string()))
    );
    assert_eq!(store_request(&AdminCommand::ListAdmins), Some(StoreRequest::ListAdmins));
    assert_eq!(store_request(&AdminCommand::ListChannels), Some(StoreRequest::ListChannels));
    assert_eq!(store_request(&AdminCommand::Help), None);
    assert_eq!(store_request(&AdminCommand::Interject), None);
    assert_eq!(store_request(&AdminCommand::RemoveSelf), None);
    assert_eq!(store_request(&AdminCommand::Unknown), None);
    assert_eq!(store_request(&AdminCommand::Usage(Usage::Join)), None);
}

#[test]
fn joining_is_answered_and_done() {
    let command = AdminCommand::Join("#a".to_string());
    assert_eq!(
        admin_actions(&command, &StoreAnswer::Changed(true), false),
        vec![reply("Okay! Added #a and joining now!"), BotAction::Join("#a".to_string())]
    );
    assert_eq!(
        admin_actions(&command, &StoreAnswer::Changed(false), true),
        vec![reply("I already know about #a!")]
    );
    assert_eq!(admin_actions(&command, &StoreAnswer::Failed, true), vec![]);
}

#[test]
fn parting_depends_on_store_and_presence() {
    let command = AdminCommand::Part("#a".to_string());
    assert_eq!(
        admin_actions(&command, &StoreAnswer::Changed(true), true),
        vec![
            reply("Got it! Leaving #a and won't rejoin automatically."),
            BotAction::Part("#a".to_string())
        ]
    );
    assert_eq!(
        admin_actions(&command, &StoreAnswer::Changed(false), true),
        vec![
            reply("Okay, leaving #a for this session (wasn't set to auto-join)."),
            BotAction::Part("#a".to_string()),
            BotAction::Forget("#a".to_string())
        ]
    );
    assert_eq!(
        admin_actions(&command, &StoreAnswer::Changed(false), false),
        vec![reply("I wasn't set to auto-join #a anyway.")]
    );
}

#[test]
fn administrators_are_added_and_removed() {
    let add = AdminCommand::AddAdmin("eve".to_string());
    assert_eq!(
        admin_actions(&add, &StoreAnswer::Changed(true), false),
        vec![reply("Okay, 'eve' is now an admin!")]
    );
    assert_eq!(
        admin_actions(&add, &StoreAnswer::Changed(false), false),
        vec![reply("Failed to add 'eve' (maybe already an admin?).")]
    );
    let del = AdminCommand::DelAdmin("eve".to_string());
    assert_eq!(
        admin_actions(&del, &StoreAnswer::Changed(true), false),
        vec![reply("Okay, 'eve' is no longer an admin.")]
    );
    assert_eq!(
        admin_actions(&del, &StoreAnswer::Changed(false), false),
        vec![reply("Failed to remove 'eve' (maybe not an admin?).")]
    );
    assert_eq!(
        admin_actions(&AdminCommand::RemoveSelf, &StoreAnswer::Nothing, false),
        vec![reply("You can't remove yourself, silly!")]
    );
}

#[test]
fn names_are_listed() {
    let names = StoreAnswer::Names(vec!["Baughn".to_string(), "eve".to_string()]);
    assert_eq!(
        admin_actions(&AdminCommand::ListAdmins, &names, false),
        vec![reply("Registered admins: Baughn, eve")]
    );
    assert_eq!(
        admin_actions(&AdminCommand::ListAdmins, &StoreAnswer::Names(vec![]), false),
        vec![reply("There are no registered admins!")]
    );
    assert_eq!(
        admin_actions(&AdminCommand::ListAdmins, &StoreAnswer::Failed, false),
        vec![reply("Oops, couldn't check the admin list right now.")]
    );
    let names = StoreAnswer::Names(vec!["#a".to_string()]);
    assert_eq!(
        admin_actions(&AdminCommand::ListChannels, &names, false),
        vec![reply("Auto-join channels: #a")]
    );
    assert_eq!(
        admin_actions(&AdminCommand::ListChannels, &StoreAnswer::Names(vec![]), false),
        vec![reply("I'm not set to auto-join any channels.")]
    );
    assert_eq!(
        admin_actions(&AdminCommand::ListChannels, &StoreAnswer::Failed, false),
        vec![reply("Oops, couldn't check the channel list right now.")]
    );
}

#[test]
fn other_commands_are_answered() {
    assert_eq!(
        admin_actions(&AdminCommand::Interject, &StoreAnswer::Nothing, false),
        vec![BotAction::ForceInterjection, reply("Okay, I'll try to interject soon!")]
    );
    assert_eq!(
        admin_actions(&AdminCommand::Help, &StoreAnswer::Nothing, false),
        vec![reply(
            "Admin commands: !join <#chan>, !part <#chan>, !add_admin <nick>, !del_admin <nick>, !admins, !channels, !help"
        )]
    );
    assert_eq!(
        admin_actions(&AdminCommand::Unknown, &StoreAnswer::Nothing, false),
        vec![reply("Hmm? Unknown command or format. Try !help.")]
    );
    assert_eq!(
        admin_actions(&AdminCommand::Usage(Usage::Join), &StoreAnswer::Nothing, false),
        vec![reply("Usage: !join #channel")]
    );
    assert_eq!(
        admin_actions(&AdminCommand::Usage(Usage::Part), &StoreAnswer::Nothing, false),
        vec![reply("Usage: !part #channel")]
    );
    assert_eq!(
        admin_actions(&AdminCommand::Usage(Usage::AddAdmin), &StoreAnswer::Nothing, false),
        vec![reply("Usage: !add_admin <nickname>")]
    );
    assert_eq!(
        admin_actions(&AdminCommand::Usage(Usage::DelAdmin), &StoreAnswer::Nothing, false),
        vec![reply("Usage: !del_admin <nickname>")]
    );
}
