use syncerting_tray::dialog::{arguments, choose_helper, dialog_title, helper_candidates, helpers};

#[test]
fn kdialog_gets_a_title_and_an_error_body() {
    let args = arguments("kdialog", "Syncerting Tray", "boom");
    assert_eq!(args, vec!["--title", "Syncerting Tray", "--error", "boom"]);
}

#[test]
fn zenity_takes_its_text_as_joined_flags() {
    let args = arguments("zenity", "Syncerting Tray", "boom");
    assert_eq!(args, vec!["--error", "--title=Syncerting Tray", "--text=boom"]);
}

#[test]
fn notify_send_is_the_fallback() {
    let args = arguments("notify-send", "Syncerting Tray", "boom");
    assert_eq!(
        args,
        vec!["--urgency=critical", "--icon=state-error", "Syncerting Tray", "boom"]
    );
}

#[test]
fn a_message_that_looks_like_a_flag_is_not_treated_as_one() {
    // Arguments are passed as a vector, never through a shell, so a message
    // beginning with a dash stays a message.
    let args = arguments("kdialog", "T", "--yesno pwned");
    assert_eq!(args.last().unwrap(), "--yesno pwned");
    assert_eq!(args.len(), 4);
}

#[test]
fn helpers_are_tried_in_preference_order() {
    assert_eq!(helpers(), vec!["kdialog", "zenity", "notify-send"]);
    let c = helper_candidates("/usr/bin:/bin");
    let pairs: Vec<(String, String)> = c.iter().map(|h| (h.name.clone(), h.path.clone())).collect();
    assert_eq!(
        pairs,
        vec![
            ("kdialog".to_string(), "/usr/bin/kdialog".to_string()),
            ("kdialog".to_string(), "/bin/kdialog".to_string()),
            ("zenity".to_string(), "/usr/bin/zenity".to_string()),
            ("zenity".to_string(), "/bin/zenity".to_string()),
            ("notify-send".to_string(), "/usr/bin/notify-send".to_string()),
            ("notify-send".to_string(), "/bin/notify-send".to_string()),
        ]
    );
    let present = vec![false, false, false, true, true, false];
    let chosen = choose_helper(&c, &present).unwrap();
    assert_eq!(chosen.name, "zenity");
    assert_eq!(chosen.path, "/bin/zenity");
    assert!(choose_helper(&c, &vec![false; 6]).is_none());
}

#[test]
fn dialog_titles_name_the_action() {
    assert_eq!(dialog_title("Start Syncthing"), "Syncthing Tray: Start Syncthing");
}
