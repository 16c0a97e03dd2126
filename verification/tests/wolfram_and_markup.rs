use wabot::markup::math_msg;
use wabot::markup::CmdType;
use wabot::markup::classify_markup_edit;
use wabot::markup::MathSnip;
use wabot::markup::MathText;
use wabot::message::MessageMeta;
use wabot::message::UserMeta;
use wabot::registry::LiveEntry;
use wabot::router::Command;
use wabot::router::EventRouter;
use wabot::wolfram::build_query_url;
use wabot::wolfram::classify_wolfram_edit;
use wabot::wolfram::Action;
use wabot::wolfram::AnnouncePlan;
use wabot::wolfram::ComponentData;
use wabot::wolfram::Direction;
use wabot::wolfram::Image;
use wabot::wolfram::Opt;
use wabot::wolfram::Pod;
use wabot::wolfram::PodMessage;
use wabot::wolfram::QueryResult;
use wabot::wolfram::Subpod;
use wabot::wolfram::WolfMessage;

fn meta(id: u64, user_id: u64, content: &str) -> MessageMeta {
    MessageMeta {
        id,
        channel_id: 77,
        author: UserMeta {
            id: user_id,
            name: String::from("Nanu"),
            discriminator: 3294,
            icon_url: String::from("https://example.invalid/a.png"),
        },
        content: String::from(content),
    }
}

fn pod(title: &str, images: &[&str]) -> Pod {
    let subpods = images
        .iter()
        .map(|src| {
            Subpod::new(
                String::from("sub"),
                Image::new(
                    String::from(*src),
                    String::from("alt"),
                    String::from("title"),
                    String::from("image/gif"),
                ),
            )
        })
        .collect();
    Pod::new(String::from(title), subpods)
}

fn wolf(input_id: u64, user_id: u64, pods: Vec<Pod>) -> WolfMessage {
    let result = QueryResult::new(
        Opt::Input(String::from("population of France")),
        pods.clone(),
        None,
        None,
        vec![Opt::Format(String::from("image")), Opt::Output(String::from("json"))],
    );
    WolfMessage::new(result, meta(input_id, user_id, "!wolfram population of France"), pods)
}

#[test]
fn query_url_percent_encodes_the_input() {
    let u = build_query_url(
        "APPKEY",
        &Opt::Input(String::from("population of France")),
        &vec![Opt::Format(String::from("image")), Opt::Output(String::from("json"))],
    );
    assert_eq!(
        u,
        "https://api.wolframalpha.com/v2/query?appid=APPKEY&input=population%20of%20France&format=image&output=json"
    );
}

#[test]
fn rendered_snippet_message_has_image_and_delete() {
    // input `!latex x^2`, the renderer succeeds
    let r = EventRouter::new(String::from("!"), 10);
    let cmd = r.route_message("!latex x^2");
    let source = match cmd {
        Some(Command::Latex(a)) => a,
        _ => panic!("expected the LaTeX command"),
    };
    let m = meta(5, 1, "!latex x^2");
    let user = UserMeta {
        id: 1,
        name: String::from("Nanu"),
        discriminator: 3294,
        icon_url: String::from("https://example.invalid/a.png"),
    };
    let mut snip = MathSnip::new(MathText::Latex(source), m);
    assert!(snip.cmpl(Ok(vec![9, 9, 9])).is_ok());
    assert!(snip.error.is_none());
    let msg = math_msg(&user, &snip);
    let e = msg.embed.expect("an embed");
    assert_eq!(e.title, "Math snippet");
    assert_eq!(e.description, "Input: x^2");
    assert_eq!(e.image.as_deref(), Some("attachment://image.png"));
    let a = msg.attachment.expect("an attachment");
    assert_eq!(a.filename, "image.png");
    assert_eq!(a.bytes, vec![9, 9, 9]);
    assert_eq!(msg.button_rows.len(), 1);
    assert_eq!(msg.button_rows[0].len(), 1);
    assert_eq!(msg.button_rows[0][0].custom_id, "DEL");

    // after sending, the registry holds one entry with one output id
    let mut router = r;
    snip.message = Some(900);
    router.register_entry(LiveEntry::Math(snip));
    assert_eq!(router.registry.len(), 1);
    assert_eq!(router.registry.get(0).get_response_message_id(), vec![900]);
}

#[test]
fn failed_render_keeps_the_diagnostic() {
    let mut snip = MathSnip::new(MathText::Latex(String::from("\\oops")), meta(5, 1, "!latex \\oops"));
    let r = snip.cmpl(Err(String::from("undefined control sequence")));
    assert!(r.is_err());
    assert_eq!(snip.error.as_deref(), Some("undefined control sequence"));
    assert!(snip.image.is_none());
    // a later successful render clears the error
    assert!(snip.cmpl(Ok(vec![1])).is_ok());
    assert!(snip.error.is_none());
}

#[test]
fn snippet_classifies_its_own_pattern() {
    let latex = MathSnip::new(MathText::Latex(String::from("x")), meta(5, 1, "!latex x"));
    assert!(matches!(latex.get_command_pattern("!"), CmdType::Latex));
    let ascii = MathSnip::new(MathText::AsciiMath(String::from("x")), meta(5, 1, "!ascii x"));
    assert!(matches!(ascii.get_command_pattern("!"), CmdType::Ascii));
    let inline = MathSnip::new(MathText::Latex(String::from("$x$")), meta(5, 1, "$x$"));
    assert!(matches!(inline.get_command_pattern("!"), CmdType::Inline));
}

#[test]
fn markup_edit_patterns_are_line_anchored() {
    assert!(matches!(
        classify_markup_edit("!", "!latex y"),
        Some(MathText::Latex(a)) if a == "y"
    ));
    assert!(matches!(
        classify_markup_edit("!", "!ascii y"),
        Some(MathText::AsciiMath(a)) if a == "y"
    ));
    // one trailing newline is tolerated, an inner one is not
    assert!(matches!(
        classify_markup_edit("!", "!latex y\n"),
        Some(MathText::Latex(a)) if a == "y"
    ));
    assert!(classify_markup_edit("!", "!latex y\nz").is_none());
    assert!(classify_markup_edit("!", "!latex").is_none());
    assert!(classify_markup_edit("!", "latex y").is_none());
}

#[test]
fn wolfram_edit_patterns() {
    let r = classify_wolfram_edit("!", "!wolfram weather");
    assert!(matches!(r, Some((_, a)) if a == "weather"));
    let r = classify_wolfram_edit("!", "!w weather");
    assert!(matches!(r, Some((_, a)) if a == "weather"));
    assert!(classify_wolfram_edit("!", "!latex x").is_none());
}

#[test]
fn header_message_lists_three_pods() {
    // input `!wolfram population of France`, three pods come back
    let w = wolf(5, 1, vec![
        pod("Input interpretation", &["u0"]),
        pod("Result", &["u1"]),
        pod("Map", &["u2a", "u2b"]),
    ]);
    let m = w.compose_header_message();
    let e = m.embed.expect("an embed");
    assert_eq!(e.title, "Wolfram query");
    assert_eq!(
        e.description,
        "Results provided by [Wolfram|Alpha](https://www.wolframalpha.com/)"
    );
    assert_eq!(e.fields.len(), 1);
    assert_eq!(e.fields[0].name, "Input");
    assert_eq!(e.fields[0].value, "population of France");
    let menu = m.menu.expect("a selector menu");
    assert_eq!(menu.custom_id, "POD");
    assert_eq!(menu.items.len(), 3);
    assert_eq!(menu.items[0].label, "Input interpretation");
    assert_eq!(menu.items[0].value, "POD0");
    assert_eq!(menu.items[0].description, "Pod 1");
    assert_eq!(menu.items[2].value, "POD2");
    assert_eq!(menu.items[2].description, "Pod 3");
    assert_eq!(m.button_rows.len(), 1);
    assert_eq!(m.button_rows[0][0].custom_id, "DEL");
    // no pod-detail message was sent yet
    assert_eq!(w.get_response_message_id(), Vec::<u64>::new());
    for pm in &w.pod_messages {
        assert!(pm.message.is_none());
    }
}

#[test]
fn header_message_reports_empty_results() {
    let mut w = wolf(5, 1, vec![]);
    w.result.didyoumean = Some(String::from("france"));
    let m = w.compose_header_message();
    let e = m.embed.expect("an embed");
    assert_eq!(e.fields.len(), 2);
    assert_eq!(e.fields[1].name, "No result found!");
    assert_eq!(e.fields[1].value, "Did you mean:\nfrance");
    assert!(m.menu.is_none());

    let mut w2 = wolf(6, 1, vec![]);
    w2.result.didyoumean = None;
    let m2 = w2.compose_header_message();
    let e2 = m2.embed.expect("an embed");
    assert_eq!(e2.fields[1].name, "Uh oh");
    assert_eq!(e2.fields[1].value, "No result found!");
}

#[test]
fn cursor_wraps_both_ways() {
    let pm = PodMessage::new(pod("Map", &["a", "b", "c"]));
    assert_eq!(pm.advance_cursor(Direction::Next), 1);
    assert_eq!(pm.advance_cursor(Direction::Prev), 2);
    let mut at_end = PodMessage::new(pod("Map", &["a", "b", "c"]));
    at_end.curr_spod = 2;
    assert_eq!(at_end.advance_cursor(Direction::Next), 0);
    // three Next steps from 0 among three sub-items return to 0
    let mut cur = 0usize;
    let mut walker = PodMessage::new(pod("Map", &["a", "b", "c"]));
    for _ in 0..3 {
        walker.curr_spod = cur;
        cur = walker.advance_cursor(Direction::Next);
    }
    assert_eq!(cur, 0);
}

#[test]
fn pod_message_has_cursor_controls_only_with_several_subpods() {
    let single = PodMessage::new(pod("Result", &["only"]));
    let m = single.compose_message();
    assert_eq!(m.button_rows[0].len(), 1);
    assert_eq!(m.button_rows[0][0].custom_id, "DEL");
    let e = m.embed.expect("an embed");
    assert_eq!(e.title, "Result");
    assert_eq!(e.image.as_deref(), Some("only"));

    let several = PodMessage::new(pod("Map", &["a", "b"]));
    let m2 = several.compose_message();
    assert_eq!(m2.button_rows[0].len(), 3);
    assert_eq!(m2.button_rows[0][0].custom_id, "DEL");
    assert_eq!(m2.button_rows[0][1].custom_id, "PRE");
    assert_eq!(m2.button_rows[0][2].custom_id, "NEX");
}

#[test]
fn menu_selection_sends_each_pod_once() {
    let mut router = EventRouter::new(String::from("!"), 10);
    let mut w = wolf(5, 1, vec![pod("A", &["a"]), pod("B", &["b"]), pod("C", &["c"])]);
    w.set_header_message(500);
    router.register_entry(LiveEntry::Wolf(w));

    let out = router.handle_interaction(
        500,
        1,
        &ComponentData::SelectMenu(vec![String::from("POD1")]),
    );
    let p = out.index.expect("the header is found");
    assert_eq!(out.actions.len(), 1);
    match &out.actions[0] {
        Action::SendPodMessage(n, m) => {
            assert_eq!(*n, 1);
            let e = m.embed.as_ref().expect("an embed");
            assert_eq!(e.title, "B");
            assert_eq!(e.image.as_deref(), Some("b"));
        },
        _ => panic!("expected a pod-detail send"),
    }
    router.record_pod_sent(p, 1, 501);

    // selecting the same pod again is a no-op
    let again = router.handle_interaction(
        500,
        1,
        &ComponentData::SelectMenu(vec![String::from("POD1")]),
    );
    assert!(again.actions.is_empty());
    // as is a repeated value within one interaction
    let doubled = router.handle_interaction(
        500,
        1,
        &ComponentData::SelectMenu(vec![String::from("POD2"), String::from("POD2")]),
    );
    assert_eq!(doubled.actions.len(), 1);
    // out-of-range selector values do nothing
    let bogus = router.handle_interaction(
        500,
        1,
        &ComponentData::SelectMenu(vec![String::from("POD9")]),
    );
    assert!(bogus.actions.is_empty());
}

#[test]
fn strangers_cannot_move_or_delete() {
    // an interaction from a user other than the owner changes nothing
    let mut router = EventRouter::new(String::from("!"), 10);
    let mut w = wolf(5, 1, vec![pod("Map", &["a", "b"])]);
    w.set_header_message(500);
    w.record_pod_sent(0, 501);
    router.register_entry(LiveEntry::Wolf(w));

    let out = router.handle_interaction(500, 2, &ComponentData::Button(String::from("DEL")));
    assert!(out.index.is_some());
    assert!(out.actions.is_empty());
    assert_eq!(router.registry.find_by_output(500), Some(0));
    assert_eq!(router.registry.find_by_output(501), Some(0));

    let out2 = router.handle_interaction(501, 2, &ComponentData::Button(String::from("NEX")));
    assert!(out2.actions.is_empty());
    match router.registry.get(0) {
        LiveEntry::Wolf(w) => assert_eq!(w.pod_messages[0].curr_spod, 0),
        _ => panic!("expected the query entry"),
    }
}

#[test]
fn cursor_buttons_edit_the_pod_message() {
    let mut router = EventRouter::new(String::from("!"), 10);
    let mut w = wolf(5, 1, vec![pod("Map", &["a", "b", "c"])]);
    w.set_header_message(500);
    w.record_pod_sent(0, 501);
    router.register_entry(LiveEntry::Wolf(w));

    let out = router.handle_interaction(501, 1, &ComponentData::Button(String::from("NEX")));
    assert_eq!(out.actions.len(), 1);
    match &out.actions[0] {
        Action::EditMessage(id, m) => {
            assert_eq!(*id, 501);
            let e = m.embed.as_ref().expect("an embed");
            assert_eq!(e.image.as_deref(), Some("b"));
        },
        _ => panic!("expected an in-place edit"),
    }
    match router.registry.get(0) {
        LiveEntry::Wolf(w) => assert_eq!(w.pod_messages[0].curr_spod, 1),
        _ => panic!("expected the query entry"),
    }

    let back = router.handle_interaction(501, 1, &ComponentData::Button(String::from("PRE")));
    assert_eq!(back.actions.len(), 1);
    match router.registry.get(0) {
        LiveEntry::Wolf(w) => assert_eq!(w.pod_messages[0].curr_spod, 0),
        _ => panic!("expected the query entry"),
    }
}

#[test]
fn deleting_removes_every_output_id() {
    // a delete on the header takes down the header and the sent pods,
    // and none of the old ids can be found afterwards
    let mut router = EventRouter::new(String::from("!"), 10);
    let mut w = wolf(5, 1, vec![pod("A", &["a"]), pod("B", &["b"])]);
    w.set_header_message(500);
    w.record_pod_sent(0, 501);
    router.register_entry(LiveEntry::Wolf(w));

    let out = router.handle_interaction(500, 1, &ComponentData::Button(String::from("DEL")));
    assert!(out.index.is_some());
    assert_eq!(out.actions.len(), 2);
    assert!(matches!(out.actions[0], Action::DeleteMessage(500)));
    assert!(matches!(out.actions[1], Action::DeleteMessage(501)));
    assert!(router.registry.find_by_output(500).is_none());
    assert!(router.registry.find_by_output(501).is_none());
    match router.registry.get(0) {
        LiveEntry::Wolf(w) => {
            assert!(w.header_message.is_none());
            assert!(w.pod_messages[0].message.is_none());
            assert_eq!(w.get_response_message_id(), Vec::<u64>::new());
        },
        _ => panic!("expected the query entry"),
    }

    // a subsequent interaction on an old output id is a no-op
    let later = router.handle_interaction(501, 1, &ComponentData::Button(String::from("DEL")));
    assert!(later.index.is_none());
    assert!(later.actions.is_empty());
}

#[test]
fn deleting_a_snippet_message() {
    let mut router = EventRouter::new(String::from("!"), 10);
    let mut snip = MathSnip::new(MathText::Latex(String::from("x")), meta(5, 1, "!latex x"));
    snip.message = Some(300);
    router.register_entry(LiveEntry::Math(snip));

    // a stranger's click does nothing
    let blocked = router.handle_interaction(300, 2, &ComponentData::Button(String::from("DEL")));
    assert!(blocked.actions.is_empty());
    assert_eq!(router.registry.find_by_output(300), Some(0));

    // the owner's click takes the message down
    let out = router.handle_interaction(300, 1, &ComponentData::Button(String::from("DEL")));
    assert_eq!(out.actions.len(), 1);
    assert!(matches!(out.actions[0], Action::DeleteMessage(300)));
    assert!(router.registry.find_by_output(300).is_none());
}

#[test]
fn pod_detail_shows_the_sub_item_at_the_cursor() {
    let mut pm = PodMessage::new(pod("Map", &["a", "b", "c"]));
    let first = pm.compose_message();
    assert_eq!(first.embed.expect("an embed").image.as_deref(), Some("a"));
    pm.curr_spod = 1;
    let second = pm.compose_message();
    assert_eq!(second.embed.expect("an embed").image.as_deref(), Some("b"));
}

#[test]
fn reselected_pod_message_keeps_the_cursor() {
    // move the cursor, take the detail message down, reselect the pod:
    // the re-sent detail message shows the sub-item the cursor stands at
    let mut router = EventRouter::new(String::from("!"), 10);
    let mut w = wolf(5, 1, vec![pod("Map", &["a", "b", "c"])]);
    w.set_header_message(500);
    w.record_pod_sent(0, 501);
    router.register_entry(LiveEntry::Wolf(w));

    let moved = router.handle_interaction(501, 1, &ComponentData::Button(String::from("NEX")));
    assert_eq!(moved.actions.len(), 1);
    let gone = router.handle_interaction(501, 1, &ComponentData::Button(String::from("DEL")));
    assert!(matches!(gone.actions[0], Action::DeleteMessage(501)));
    match router.registry.get(0) {
        LiveEntry::Wolf(w) => {
            assert!(w.pod_messages[0].message.is_none());
            assert_eq!(w.pod_messages[0].curr_spod, 1);
        },
        _ => panic!("expected the query entry"),
    }

    let again = router.handle_interaction(
        500,
        1,
        &ComponentData::SelectMenu(vec![String::from("POD0")]),
    );
    assert_eq!(again.actions.len(), 1);
    match &again.actions[0] {
        Action::SendPodMessage(n, m) => {
            assert_eq!(*n, 0);
            assert_eq!(m.embed.as_ref().expect("an embed").image.as_deref(), Some("b"));
        },
        _ => panic!("expected a pod-detail send"),
    }
}

#[test]
fn upstream_failure_is_reported_instead_of_a_header() {
    let mut w = wolf(5, 1, vec![]);
    w.result.error = Some((String::from("Invalid appid"), 1));
    match w.announce() {
        AnnouncePlan::UpstreamError(m) => {
            let e = m.embed.expect("an embed");
            assert_eq!(e.title, "Error");
            assert_eq!(e.description, "There was an error:
Wolfram error 1 :
Invalid appid");
            assert_eq!(e.footer.expect("a footer").text, "Requested by Nanu#3294");
        },
        AnnouncePlan::Header(_) => panic!("no header may be sent on an upstream failure"),
    }
    let ok = wolf(6, 1, vec![pod("Result", &["r"])]);
    match ok.announce() {
        AnnouncePlan::Header(m) => {
            assert_eq!(m.embed.expect("an embed").title, "Wolfram query");
        },
        AnnouncePlan::UpstreamError(_) => panic!("no failure was reported"),
    }
}
