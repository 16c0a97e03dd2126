use wabot::markup::MathSnip;
use wabot::markup::MathText;
use wabot::message::MessageMeta;
use wabot::message::UserMeta;
use wabot::registry::Editables;
use wabot::registry::Interactables;
use wabot::registry::LiveEntry;
use wabot::registry::push_to_editables;
use wabot::registry::push_to_interactables;
use wabot::router::Command;
use wabot::router::EditPlan;
use wabot::router::EventRouter;
use wabot::EDIT_BUFFER_SIZE;
use wabot::INTERACT_BUFFER_SIZE;

fn meta(id: u64, user_id: u64, content: &str) -> MessageMeta {
    MessageMeta {
        id,
        channel_id: 77,
        author: UserMeta {
            id: user_id,
            name: String::from("Nanu"),
            discriminator: 3294,
            icon_url: String::from("https://example.invalid/a.png"),
        },
        content: String::from(content),
    }
}

fn math_entry(input_id: u64, user_id: u64, content: &str, output_id: u64) -> LiveEntry {
    let mut snip = MathSnip::new(MathText::Latex(String::from("x")), meta(input_id, user_id, content));
    snip.message = Some(output_id);
    LiveEntry::Math(snip)
}

#[test]
fn route_commands() {
    let r = EventRouter::new(String::from("---"), 10);
    assert!(matches!(
        r.route_message("---latex x^2"),
        Some(Command::Latex(a)) if a == "x^2"
    ));
    assert!(matches!(
        r.route_message("---ascii 1+1"),
        Some(Command::Ascii(a)) if a == "1+1"
    ));
    assert!(matches!(
        r.route_message("---wolfram population of France"),
        Some(Command::Wolfram(a)) if a == "population of France"
    ));
    assert!(matches!(
        r.route_message("---w 2+2"),
        Some(Command::Wolfram(a)) if a == "2+2"
    ));
}

#[test]
fn route_missing_argument() {
    let r = EventRouter::new(String::from("---"), 10);
    assert!(matches!(r.route_message("---latex"), Some(Command::MissingArg)));
    assert!(matches!(r.route_message("---latex "), Some(Command::MissingArg)));
    // blank argument text counts as missing
    assert!(matches!(r.route_message("---latex   "), Some(Command::MissingArg)));
    assert!(matches!(r.route_message("---w"), Some(Command::MissingArg)));
}

#[test]
fn route_general_commands() {
    let r = EventRouter::new(String::from("---"), 10);
    assert!(matches!(r.route_message("---ping"), Some(Command::Ping)));
    assert!(matches!(r.route_message("---about"), Some(Command::About)));
    assert!(matches!(r.route_message("---invite"), Some(Command::Invite)));
    assert!(matches!(r.route_message("---help"), Some(Command::Help)));
}

#[test]
fn route_unknown_command() {
    let r = EventRouter::new(String::from("---"), 10);
    assert!(matches!(
        r.route_message("---frobnicate now"),
        Some(Command::Unknown(w)) if w == "frobnicate"
    ));
    // a near-miss of a command word is unknown, not a command
    assert!(matches!(
        r.route_message("---latexx y"),
        Some(Command::Unknown(w)) if w == "latexx"
    ));
}

#[test]
fn route_inline_math() {
    let r = EventRouter::new(String::from("---"), 10);
    assert!(matches!(r.route_message("$x$"), Some(Command::Inline)));
    assert!(matches!(r.route_message("so $E=mc^2$ wow"), Some(Command::Inline)));
    assert!(matches!(r.route_message("$$x+y$$"), Some(Command::Inline)));
    // a prefixed word that is no known command still renders inline math
    assert!(matches!(r.route_message("---frob $x$"), Some(Command::Inline)));
    // known commands win over the inline pattern
    assert!(matches!(
        r.route_message("---latex $x$"),
        Some(Command::Latex(a)) if a == "$x$"
    ));
}

#[test]
fn plain_messages_route_nowhere() {
    // no command and no inline pattern: no entry, no message
    let r = EventRouter::new(String::from("---"), 10);
    assert!(r.route_message("hello world").is_none());
    assert!(r.route_message("").is_none());
    assert!(r.route_message("price $5 and $6").is_none());
    assert!(r.route_message("$ x$").is_none());
    assert!(r.route_message("$x\ny$").is_none());
    assert!(r.route_message("$$").is_none());
    assert!(r.route_message("$x").is_none());
}

#[test]
fn shrug_is_not_inline_math() {
    let r = EventRouter::new(String::from("---"), 10);
    let with_shrug = format!("$x$ \u{af}\\\\_\u{30c4}\\_/\u{af}");
    assert!(r.route_message(&with_shrug).is_none());
}

#[test]
fn registries_never_exceed_capacity_and_evict_oldest() {
    let mut ed = Editables::new(EDIT_BUFFER_SIZE);
    let mut it = Interactables::new(INTERACT_BUFFER_SIZE);
    for k in 0..11u64 {
        push_to_editables(&mut ed, math_entry(k, 1, "---latex x", 100 + k));
        push_to_interactables(&mut it, math_entry(k, 1, "---latex x", 100 + k));
    }
    assert_eq!(ed.reg.len(), 10);
    assert_eq!(it.reg.len(), 10);
    // the newest entry stands at the front
    assert_eq!(ed.reg.get(0).get_input_message_id(), 10);
    // the oldest entry was pushed out
    assert!(ed.reg.find_by_input(0).is_none());
    assert!(it.reg.find_by_output(100).is_none());
    // the next-oldest is still there, at the back
    assert_eq!(ed.reg.find_by_input(1), Some(9));
    assert_eq!(it.reg.find_by_output(101), Some(9));
}

#[test]
fn registry_replaces_in_place() {
    let mut ed = Editables::new(4);
    push_to_editables(&mut ed, math_entry(1, 1, "---latex x", 101));
    push_to_editables(&mut ed, math_entry(2, 1, "---latex y", 102));
    let p = ed.reg.find_by_input(1).expect("entry present");
    assert_eq!(p, 1);
    ed.reg.replace_at(p, math_entry(1, 1, "---ascii z", 103));
    assert_eq!(ed.reg.len(), 2);
    assert_eq!(ed.reg.find_by_input(1), Some(1));
    assert_eq!(ed.reg.find_by_output(103), Some(1));
    assert!(ed.reg.find_by_output(101).is_none());
}

#[test]
fn edit_reselects_the_markup_kind() {
    // an edit from the LaTeX command to the AsciiMath command changes
    // the planned variant, not just the text
    let mut r = EventRouter::new(String::from("!"), 10);
    r.register_entry(math_entry(5, 1, "!latex x", 200));
    match r.plan_edit(5, "!ascii x") {
        EditPlan::Math(p, ids, MathText::AsciiMath(a)) => {
            assert_eq!(p, 0);
            assert_eq!(ids, vec![200]);
            assert_eq!(a, "x");
        },
        _ => panic!("expected an AsciiMath edit plan"),
    }
    match r.plan_edit(5, "!latex y") {
        EditPlan::Math(_, _, MathText::Latex(a)) => assert_eq!(a, "y"),
        _ => panic!("expected a LaTeX edit plan"),
    }
}

#[test]
fn edit_of_unmatched_text_is_stale() {
    let mut r = EventRouter::new(String::from("!"), 10);
    r.register_entry(math_entry(5, 1, "!latex x", 200));
    assert!(matches!(r.plan_edit(5, ""), EditPlan::Stale));
    assert!(matches!(r.plan_edit(5, "just chatting"), EditPlan::Stale));
    // a query command does not match a snippet entry's patterns
    assert!(matches!(r.plan_edit(5, "!wolfram x"), EditPlan::Stale));
    // an edit of a message no entry answers plans nothing
    assert!(matches!(r.plan_edit(6, "!latex x"), EditPlan::NotFound));
}

#[test]
fn edited_snippet_replaces_the_same_slot() {
    // a user edits their `!ascii 1+1` message to `!ascii 2+2`
    let mut r = EventRouter::new(String::from("!"), 10);
    let mut snip = MathSnip::new(MathText::AsciiMath(String::from("1+1")), meta(5, 1, "!ascii 1+1"));
    snip.cmpl(Ok(vec![1, 2, 3])).expect("rendering succeeded");
    snip.message = Some(50);
    r.register_entry(LiveEntry::Math(snip));
    r.register_entry(math_entry(6, 1, "!latex q", 60));

    let plan = r.plan_edit(5, "!ascii 2+2");
    let (p, ids, text) = match plan {
        EditPlan::Math(p, ids, text) => (p, ids, text),
        _ => panic!("expected a snippet edit plan"),
    };
    // the old output message is deleted by the caller
    assert_eq!(ids, vec![50]);
    assert!(matches!(&text, MathText::AsciiMath(a) if a == "2+2"));

    let mut replacement = MathSnip::new(text, meta(5, 1, "!ascii 2+2"));
    replacement.cmpl(Ok(vec![4, 5, 6])).expect("rendering succeeded");
    replacement.message = Some(51);
    r.replace_entry(p, LiveEntry::Math(replacement));

    // the slot keeps its position and the lookups see the new output id
    assert_eq!(r.registry.len(), 2);
    assert_eq!(r.registry.find_by_input(5), Some(p));
    assert_eq!(r.registry.find_by_output(51), Some(p));
    assert!(r.registry.find_by_output(50).is_none());
}
