use custom_backend::srv_io::db_io::check_entry;
use custom_backend::srv_io::db_io::field_and_limit;
use custom_backend::srv_io::db_io::guest_name;
use custom_backend::srv_io::db_io::UserError;
use custom_backend::srv_io::db_io::MAX_NAME_BYTES;
use custom_backend::srv_io::db_io::MAX_NOTE_BYTES;
use custom_backend::srv_io::vite_get::asset_path;
use custom_backend::srv_io::vite_io::asset_body;
use custom_backend::srv_io::vite_io::asset_status;
use custom_backend::srv_io::vite_io::AssetBody;
use custom_backend::utils::err_handling::make_500_resp;
use custom_backend::utils::init_utils::prelog_enabled;
use custom_backend::utils::init_utils::process_cli_args;
use custom_backend::utils::init_utils::RunMode;

const SHORT_PAGE: &str = "<!DOCTYPE html>\n<html><head>\n<title>500 Error</title>\n</head>\n<p>500 Error: Internal Server Error</p>\n</html>";

#[test]
fn post_overlong_entry_note() {
    let name = String::from("A resonable name");
    let note = String::from(
        "ᏣᎳᎩ ᎦᏬᏂᎯᏍᏗ (this is Cherokee!) \n\\\\% %%' ''\n\
        മനുഷ്യരെല്ലാവരും തുല്യാവകാശങ്ങളോടും അന്തസ്സോടും സ്വാതന്ത്ര്യത്തോടുംകൂടി \
        ജനിച്ചിട്ടുള്ളവരാണ്‌. അന്യോന്യം ഭ്രാതൃഭാവത്തോടെ പെരുമാറുവാനാണ്‌ മനുഷ്യന് \
        വിവേകബുദ്ധിയും മനസാക്ഷിയും സിദ്ധമായിരിക്കുന്നത്‌\
        (this says 'All human beings are born free and equal in dignity and rights. \
        They are endowed with reason and conscience and should act towards one \
        another in a spirit of brotherhood.' in Malayalam. It comes from the \
        UN's Universal Declaration on Human Rights)\n\
        Let's stick with this and go further. We need to make sure we have this \
        data exceed 1KB. And now it does, with all these extra characters \
        to put it over the finsh line.",
    );
    let e = check_entry(&name, &note).unwrap_err();
    assert_eq!(e, UserError::NoteTooLong);
}

#[test]
fn post_overlong_entry_name() {
    let name = String::from(
        "A name മനുഷ്യരെല്ലാവരും തുല്യാവകാശങ്ങളോടും that is too ᎦᏬᏂᎯᏍᏗ long. \
        so long, in fact, I needed to add all this stuff!",
    );
    let note = String::from("a brief note");
    let e = check_entry(&name, &note).unwrap_err();
    assert_eq!(e, UserError::NameTooLong);
}

#[test]
fn entry_lengths_are_counted_in_bytes() {
    assert_eq!(MAX_NAME_BYTES, 150);
    assert_eq!(MAX_NOTE_BYTES, 1000);
    assert_eq!(check_entry("", ""), Ok(()));
    assert_eq!(check_entry(&"n".repeat(150), &"x".repeat(1000)), Ok(()));
    assert_eq!(check_entry(&"n".repeat(151), "x"), Err(UserError::NameTooLong));
    assert_eq!(check_entry("n", &"x".repeat(1001)), Err(UserError::NoteTooLong));
    // 75 characters of two bytes each fit, 76 do not.
    assert_eq!(check_entry(&"é".repeat(75), ""), Ok(()));
    assert_eq!(check_entry(&"é".repeat(76), ""), Err(UserError::NameTooLong));
    assert_eq!(check_entry("", &"é".repeat(500)), Ok(()));
    assert_eq!(check_entry("", &"é".repeat(501)), Err(UserError::NoteTooLong));
}

#[test]
fn overlong_name_is_reported_before_an_overlong_note() {
    assert_eq!(check_entry(&"n".repeat(151), &"x".repeat(1001)), Err(UserError::NameTooLong));
}

#[test]
fn post_null_entry() {
    let name = String::new();
    let note = String::new();
    assert_eq!(check_entry(&name, &note), Ok(()));
    assert_eq!(guest_name(name), String::from("(anonymous)"));
}

#[test]
fn post_valid_entry() {
    let name = String::from("Lettuce % % \\% \\' break some sTuff ⌠ 	⌡ 	⌢ 	⌣ 	⌤");
    let note = String::from(
        "ᏣᎳᎩ ᎦᏬᏂᎯᏍᏗ (Cherokee!) \n\\\\% %%' ''\\n\
        മനുഷ്യരെല്ലാവരും തുല്യാവകാശങ്ങളോടും അന്തസ്സോടും സ്വാതന്ത്ര്യത്തോടുംകൂടി \
        ജനിച്ചിട്ടുള്ളവരാണ്‌. അന്യോന്യം ഭ്രാതൃഭാവത്തോടെ പെരുമാറുവാനാണ്‌ മനുഷ്യന് \
        വിവേകബുദ്ധിയും മനസാക്ഷിയും സിദ്ധമായിരിക്കുന്നത്‌ \
        (this says 'All human beings are born free and equal in dignity and rights. \
        They are endowed with reason and conscience and should act towards one \
        another in a spirit of brotherhood.' in Malayalam. It comes from the \
        UN's Universal Declaration on Human Rights)",
    );
    assert_eq!(check_entry(&name, &note), Ok(()));
    assert_eq!(guest_name(name.clone()), name);
}

#[test]
fn nameless_entry_gets_the_anonymous_name() {
    assert_eq!(guest_name(String::new()), "(anonymous)");
    assert_eq!(guest_name(String::from("Ada")), "Ada");
    assert_eq!(guest_name(String::from(" ")), " ");
    assert_eq!(guest_name(String::from("约翰·塞纳")), "约翰·塞纳");
}

#[test]
fn visitor_is_told_the_field_and_its_limit() {
    assert_eq!(field_and_limit(UserError::NameTooLong), ("Name", 100));
    assert_eq!(field_and_limit(UserError::NoteTooLong), ("Note", 1000));
}

#[test]
fn run_mode_follows_the_first_argument() {
    assert_eq!(process_cli_args(None), Ok(RunMode::Tls));
    assert_eq!(process_cli_args(Some(String::from("--no-tls"))), Ok(RunMode::NoTls));
    assert_eq!(process_cli_args(Some(String::from("--help"))), Ok(RunMode::PrintHelp));
    assert_eq!(process_cli_args(Some(String::from("-h"))), Ok(RunMode::PrintHelp));
}

#[test]
fn unknown_option_is_refused_by_name() {
    assert_eq!(
        process_cli_args(Some(String::from("--tls"))),
        Err(String::from("Option \"--tls\" is not recognized."))
    );
    assert_eq!(
        process_cli_args(Some(String::new())),
        Err(String::from("Option \"\" is not recognized."))
    );
    assert_eq!(
        process_cli_args(Some(String::from("--no-tls "))),
        Err(String::from("Option \"--no-tls \" is not recognized."))
    );
    assert_eq!(
        process_cli_args(Some(String::from("-H"))),
        Err(String::from("Option \"-H\" is not recognized."))
    );
}

#[test]
fn prelog_is_on_unless_unset_or_zero() {
    assert!(!prelog_enabled(None));
    assert!(!prelog_enabled(Some("0")));
    assert!(prelog_enabled(Some("1")));
    assert!(prelog_enabled(Some("")));
    assert!(prelog_enabled(Some("00")));
    assert!(prelog_enabled(Some("yes")));
}

#[test]
fn site_addresses_map_to_their_pages() {
    assert_eq!(asset_path("/guestbook"), Some("/pages/guestbook.html"));
    assert_eq!(asset_path("/lb-list-conv"), Some("/pages/lb-list-app.html"));
    assert_eq!(asset_path("/"), None);
    assert_eq!(asset_path("/guestbook/"), None);
    assert_eq!(asset_path("/pages/guestbook.html"), None);
    assert_eq!(asset_path(""), None);
}

#[test]
fn text_assets_are_sent_as_text() {
    let body = asset_body("text/html", "<p>hé</p>".as_bytes().to_vec());
    assert_eq!(body, AssetBody::Text(String::from("<p>hé</p>")));
    assert_eq!(asset_status(&body), 200);
    let body = asset_body("text", vec![]);
    assert_eq!(body, AssetBody::Text(String::new()));
}

#[test]
fn text_asset_that_is_not_utf8_is_a_server_error() {
    let body = asset_body("text/css", vec![b'a', 0xff]);
    assert_eq!(body, AssetBody::Unreadable);
    assert_eq!(asset_status(&body), 500);
}

#[test]
fn other_assets_are_sent_as_they_are() {
    let body = asset_body("image/png", vec![0x89, b'P', b'N', b'G', 0xff]);
    assert_eq!(body, AssetBody::Binary(vec![0x89, b'P', b'N', b'G', 0xff]));
    assert_eq!(asset_status(&body), 200);
    let body = asset_body("application/text", b"plain".to_vec());
    assert_eq!(body, AssetBody::Binary(b"plain".to_vec()));
    let body = asset_body("", b"plain".to_vec());
    assert_eq!(body, AssetBody::Binary(b"plain".to_vec()));
}

#[test]
fn error_page_is_the_stored_page_or_the_short_one() {
    assert_eq!(make_500_resp(None), SHORT_PAGE);
    assert_eq!(make_500_resp(Some(vec![0xff, 0xfe])), SHORT_PAGE);
    assert_eq!(make_500_resp(Some("<h1>Sorry, é</h1>".as_bytes().to_vec())), "<h1>Sorry, é</h1>");
    assert_eq!(make_500_resp(Some(vec![])), "");
}
