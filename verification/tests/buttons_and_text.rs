use wabot::utils::Buttons;
use wabot::utils::MenuItem;
use wabot::errors::Error;
use wabot::message::loading_msg;
use wabot::message::requested_by;
use wabot::message::UserMeta;

#[test]
fn button_ids_round_out() {
    assert_eq!(Buttons::Delete.to_id_string(), "DEL");
    assert_eq!(Buttons::Next.to_id_string(), "NEX");
    assert_eq!(Buttons::Prev.to_id_string(), "PRE");
    assert_eq!(Buttons::Pod(String::from("x"), 7).to_id_string(), "POD7");
    assert_eq!(Buttons::Pod(String::new(), 123456789).to_id_string(), "POD123456789");
    assert_eq!(Buttons::Invalid.to_id_string(), "");
}

#[test]
fn button_labels() {
    assert_eq!(Buttons::Delete.to_string(), "Delete");
    assert_eq!(Buttons::Next.to_string(), "Next");
    assert_eq!(Buttons::Prev.to_string(), "Previous");
    let short = Buttons::Pod(String::from("Population"), 0);
    assert_eq!(short.to_string(), "Population");
    let exact = Buttons::Pod(String::from("abcdefghijklmnopqrst"), 0);
    assert_eq!(exact.to_string(), "abcdefghijklmnopqrst");
    let long = Buttons::Pod(String::from("abcdefghijklmnopqrstu"), 0);
    assert_eq!(long.to_string(), "abcdefghijklmnopq...");
}

#[test]
fn button_emojis() {
    assert_eq!(Buttons::Delete.to_emoji(), "\u{1f5d1}\u{fe0f}");
    assert_eq!(Buttons::Next.to_emoji(), "\u{27a1}");
    assert_eq!(Buttons::Prev.to_emoji(), "\u{2b05}");
    assert_eq!(Buttons::Pod(String::new(), 3).to_emoji(), "\u{1f48a}");
    assert_eq!(Buttons::Invalid.to_emoji(), "\u{1f6ab}");
}

#[test]
fn button_from_known_ids() {
    assert!(matches!(Buttons::from_id("DEL"), Buttons::Delete));
    assert!(matches!(Buttons::from_id("NEX"), Buttons::Next));
    assert!(matches!(Buttons::from_id("PRE"), Buttons::Prev));
}

#[test]
fn button_from_pod_ids() {
    match Buttons::from_id("POD12") {
        Buttons::Pod(label, n) => {
            assert_eq!(label, "");
            assert_eq!(n, 12);
        },
        _ => panic!("expected a pod selector"),
    }
    // the digit run is read even when more text follows
    match Buttons::from_id("POD12x") {
        Buttons::Pod(_, n) => assert_eq!(n, 12),
        _ => panic!("expected a pod selector"),
    }
}

#[test]
fn button_from_rejects_junk() {
    assert!(matches!(Buttons::from_id(""), Buttons::Invalid));
    assert!(matches!(Buttons::from_id("POD"), Buttons::Invalid));
    assert!(matches!(Buttons::from_id("PODx"), Buttons::Invalid));
    assert!(matches!(Buttons::from_id("pod1"), Buttons::Invalid));
    assert!(matches!(Buttons::from_id("del"), Buttons::Invalid));
    assert!(matches!(Buttons::from_id("DELETE"), Buttons::Invalid));
    // an index too large for usize falls back to Invalid
    assert!(matches!(
        Buttons::from_id("POD99999999999999999999999999"),
        Buttons::Invalid
    ));
}

#[test]
fn buttons_lay_out_in_rows_of_three() {
    let rows = Buttons::add_buttons(vec![
        Buttons::Delete,
        Buttons::Prev,
        Buttons::Next,
        Buttons::Pod(String::from("t"), 0),
    ]);
    assert_eq!(rows.len(), 2);
    assert_eq!(rows[0].len(), 3);
    assert_eq!(rows[1].len(), 1);
    assert_eq!(rows[0][0].custom_id, "DEL");
    assert_eq!(rows[0][1].custom_id, "PRE");
    assert_eq!(rows[0][2].custom_id, "NEX");
    assert_eq!(rows[1][0].custom_id, "POD0");
    assert!(!rows[0][0].disabled);
    assert_eq!(rows[0][0].label, "Delete");
}

#[test]
fn menu_item_keeps_fields() {
    let m = MenuItem::new(
        String::from("Result"),
        None,
        String::from("POD0"),
        String::from("Pod 1"),
    );
    assert_eq!(m.label, "Result");
    assert_eq!(m.value, "POD0");
    assert_eq!(m.description, "Pod 1");
    assert!(m.emoji.is_none());
}

#[test]
fn error_messages() {
    assert_eq!(
        Error::ArgError(1, 0).message(),
        "Expected 0 argument(s), recieved 1"
    );
    assert_eq!(
        Error::MathError(String::from("bad input")).message(),
        "Compilation error:\n```bad input```"
    );
    assert_eq!(
        Error::WolfError(String::from("no key"), 42).message(),
        "Wolfram error 42 :\nno key"
    );
    assert_eq!(Error::NoImgError().message(), "Error:\nNo image");
    assert_eq!(
        Error::IOError(String::from("broken pipe")).message(),
        "I/O error: broken pipe"
    );
}

#[test]
fn error_message_is_capped_at_platform_limit() {
    let diag: String = std::iter::repeat('e').take(3000).collect();
    let user = UserMeta {
        id: 9,
        name: String::from("Nanu"),
        discriminator: 3294,
        icon_url: String::from("https://example.invalid/a.png"),
    };
    let m = wabot::errors::err_msg(Some(&user), &Error::MathError(diag));
    let e = m.embed.expect("an embed");
    assert_eq!(e.title, "Error");
    assert_eq!(e.description.chars().count(), 2000);
    assert!(e.description.starts_with("There was an error:\nCompilation error:\n```eee"));
    assert!(e.description.ends_with("..."));
    let f = e.footer.expect("a footer");
    assert_eq!(f.text, "Requested by Nanu#3294");
}

#[test]
fn short_error_message_is_kept_whole() {
    let m = wabot::errors::err_msg(None, &Error::NoImgError());
    let e = m.embed.expect("an embed");
    assert_eq!(e.description, "There was an error:\nError:\nNo image");
    assert!(e.footer.is_none());
}

#[test]
fn loading_message_text() {
    let m = loading_msg();
    assert_eq!(
        m.content.as_deref(),
        Some("Doing stuff <a:loading:840650882286223371>")
    );
    assert!(m.embed.is_none());
}

#[test]
fn footer_text_names_the_requester() {
    assert_eq!(requested_by("Nanu", 3294), "Requested by Nanu#3294");
    assert_eq!(requested_by("a", 1), "Requested by a#1");
}
