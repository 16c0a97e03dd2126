//! The event router: one store of live entries with two lookup keys,
//! and the decisions taken for each inbound gateway event. The caller
//! performs the planned I/O and reports sent message ids back.
use vstd::prelude::*;
use vstd::string::StrSliceExecFns;
use crate::markup::MathSnip;
use crate::markup::MathText;
use crate::markup::ascii_word;
use crate::markup::ascii_word_chars;
use crate::markup::classify_markup_edit;
use crate::markup::latex_word;
use crate::markup::latex_word_chars;
use crate::pattern::edit_cmd_match;
use crate::pattern::find_char_from;
use crate::pattern::has_inline_math;
use crate::pattern::has_inline_math_exec;
use crate::pattern::find_char_exec;
use crate::pattern::range_eq;
use crate::pattern::shrug_chars;
use crate::pattern::shrug_seq;
use crate::pattern::blank;
use crate::pattern::starts_with;
use crate::pattern::starts_with_exec;
use crate::registry::LiveEntry;
use crate::registry::Registry;
use crate::registry::entry_input_id;
use crate::registry::entry_output_ids;
use crate::registry::entry_owner_id;
use crate::registry::entry_wf;
use crate::registry::push_model;
use crate::registry::reg_wf;
use crate::text::contains_seq;
use crate::text::to_char_vec;
use crate::utils::del_id;
use crate::utils::is_pod_id;
use crate::wolfram::Action;
use crate::wolfram::ComponentData;
use crate::wolfram::PodMessage;
use crate::wolfram::classify_wolfram_edit;
use crate::wolfram::interaction_transition;
use crate::wolfram::w_word;
use crate::wolfram::w_word_chars;
use crate::wolfram::wolfram_word;
use crate::wolfram::wolfram_word_chars;

verus! {

/// What a new inbound message asks for.
pub enum Command {
    /// Render the argument as LaTeX.
    Latex(String),
    /// Render the argument as AsciiMath.
    Ascii(String),
    /// Forward the argument to the Q&A service.
    Wolfram(String),
    /// No command, but the message holds inline math: render it whole.
    Inline,
    /// A known command with no argument text.
    MissingArg,
    Ping,
    About,
    Invite,
    Help,
    /// A prefixed word that is no known command.
    Unknown(String),
}

/// The decision taken for an edited input message.
pub enum EditPlan {
    /// No live entry answers the edited message.
    NotFound,
    /// An entry exists but the new text matches no pattern of its
    /// kind: nothing is done and the entry stays as it was.
    Stale,
    /// A snippet entry: delete the listed messages, render the new
    /// text, and replace the slot at the given position.
    Math(usize, Vec<u64>, MathText),
    /// A query entry: delete the listed messages, run the new query,
    /// and replace the slot at the given position.
    Wolf(usize, Vec<u64>, String),
}

/// What one component interaction did: the position of the entry it
/// reached, if any, and the outward steps to perform.
pub struct InteractionOutcome {
    pub index: Option<usize>,
    pub actions: Vec<Action>,
}

/// Entries are individually well-formed, answer distinct input
/// messages, and show pairwise-disjoint sets of message ids.
pub open spec fn entries_wf(s: Seq<LiveEntry>) -> bool {
    &&& (forall|i: int| 0 <= i < s.len() ==> entry_wf(#[trigger] s[i]))
    &&& (forall|i: int, j: int|
        0 <= i < j < s.len() ==> entry_input_id(#[trigger] s[i]) != entry_input_id(
            #[trigger] s[j],
        ))
    &&& (forall|i: int, j: int, id: u64|
        0 <= i < s.len() && 0 <= j < s.len() && i != j && #[trigger] entry_output_ids(
            s[i],
        ).contains(id) ==> !(#[trigger] entry_output_ids(s[j]).contains(id)))
}

/// Whether the ids of `e` are new to every entry of `s`.
pub open spec fn ids_fresh_for(s: Seq<LiveEntry>, e: LiveEntry) -> bool {
    &&& (forall|i: int|
        0 <= i < s.len() ==> entry_input_id(#[trigger] s[i]) != entry_input_id(e))
    &&& (forall|i: int, id: u64|
        0 <= i < s.len() && entry_output_ids(e).contains(id) ==> !(#[trigger] entry_output_ids(
            s[i],
        ).contains(id)))
}

/// Whether the output ids of `e` are new to every entry of `s` but the
/// one at `p`.
pub open spec fn ids_fresh_except(s: Seq<LiveEntry>, e: LiveEntry, p: int) -> bool {
    forall|i: int, id: u64|
        0 <= i < s.len() && i != p && entry_output_ids(e).contains(id) ==> !(
        #[trigger] entry_output_ids(s[i]).contains(id))
}

proof fn lemma_push_entries_wf(s: Seq<LiveEntry>, cap: nat, e: LiveEntry)
    requires
        s.len() <= cap,
        entries_wf(s),
        entry_wf(e),
        ids_fresh_for(s, e),
    ensures
        entries_wf(push_model(s, cap, e)),
{
    let r = push_model(s, cap, e);
    crate::registry::lemma_push_bounded(s, cap, e);
    assert forall|i: int| 0 <= i < r.len() implies entry_wf(#[trigger] r[i]) by {
        if i == 0 {
        } else {
            assert(r[i] == s[i - 1]);
        }
    }
    assert forall|i: int, j: int| 0 <= i < j < r.len() implies entry_input_id(#[trigger] r[i])
        != entry_input_id(#[trigger] r[j]) by {
        assert(r[j] == s[j - 1]);
        if i > 0 {
            assert(r[i] == s[i - 1]);
        }
    }
    assert forall|i: int, j: int, id: u64|
        0 <= i < r.len() && 0 <= j < r.len() && i != j && #[trigger] entry_output_ids(
            r[i],
        ).contains(id) implies !(#[trigger] entry_output_ids(r[j]).contains(id)) by {
        if i > 0 {
            assert(r[i] == s[i - 1]);
        }
        if j > 0 {
            assert(r[j] == s[j - 1]);
        }
    }
}

proof fn lemma_update_entries_wf(s: Seq<LiveEntry>, p: int, e: LiveEntry)
    requires
        entries_wf(s),
        0 <= p < s.len(),
        entry_wf(e),
        entry_input_id(e) == entry_input_id(s[p]),
        ids_fresh_except(s, e, p),
    ensures
        entries_wf(s.update(p, e)),
{
    let r = s.update(p, e);
    assert forall|i: int| 0 <= i < r.len() implies entry_wf(#[trigger] r[i]) by {
        if i != p {
            assert(r[i] == s[i]);
        }
    }
    assert forall|i: int, j: int| 0 <= i < j < r.len() implies entry_input_id(#[trigger] r[i])
        != entry_input_id(#[trigger] r[j]) by {
        if i != p {
            assert(r[i] == s[i]);
        }
        if j != p {
            assert(r[j] == s[j]);
        }
    }
    assert forall|i: int, j: int, id: u64|
        0 <= i < r.len() && 0 <= j < r.len() && i != j && #[trigger] entry_output_ids(
            r[i],
        ).contains(id) implies !(#[trigger] entry_output_ids(r[j]).contains(id)) by {
        if i != p {
            assert(r[i] == s[i]);
        }
        if j != p {
            assert(r[j] == s[j]);
        }
    }
}

/// A component interaction on a snippet entry whose owner clicked: a
/// delete click takes the shown message down; anything else is a no-op.
pub open spec fn snip_transition(
    m0: MathSnip,
    m1: MathSnip,
    data: ComponentData,
    acts: Seq<Action>,
) -> bool {
    let fires = (match data {
        ComponentData::Button(cid) => cid@ == del_id() && !is_pod_id(cid@),
        ComponentData::SelectMenu(_) => false,
    }) && m0.message is Some;
    if fires {
        &&& m1 == (MathSnip { message: None, ..m0 })
        &&& acts == seq![Action::DeleteMessage(m0.message->Some_0)]
    } else {
        m1 == m0 && acts.len() == 0
    }
}

proof fn lemma_update_entries_wf_weak(s: Seq<LiveEntry>, p: int, e: LiveEntry)
    requires
        entries_wf(s),
        0 <= p < s.len(),
        entry_wf(e),
        entry_input_id(e) == entry_input_id(s[p]),
        forall|id: u64| #[trigger] entry_output_ids(e).contains(id) ==> entry_output_ids(
            s[p],
        ).contains(id),
    ensures
        entries_wf(s.update(p, e)),
{
    let r = s.update(p, e);
    assert forall|i: int| 0 <= i < r.len() implies entry_wf(#[trigger] r[i]) by {
        if i != p {
            assert(r[i] == s[i]);
        }
    }
    assert forall|i: int, j: int| 0 <= i < j < r.len() implies entry_input_id(#[trigger] r[i])
        != entry_input_id(#[trigger] r[j]) by {
        if i != p {
            assert(r[i] == s[i]);
        }
        if j != p {
            assert(r[j] == s[j]);
        }
    }
    assert forall|i: int, j: int, id: u64|
        0 <= i < r.len() && 0 <= j < r.len() && i != j && #[trigger] entry_output_ids(
            r[i],
        ).contains(id) implies !(#[trigger] entry_output_ids(r[j]).contains(id)) by {
        if i == p {
            assert(entry_output_ids(s[p]).contains(id));
            assert(r[j] == s[j]);
        } else if j == p {
            assert(r[i] == s[i]);
            if entry_output_ids(e).contains(id) {
                assert(entry_output_ids(s[p]).contains(id));
            }
        } else {
            assert(r[i] == s[i]);
            assert(r[j] == s[j]);
        }
    }
}

proof fn lemma_update_entries_wf_plus(s: Seq<LiveEntry>, p: int, e: LiveEntry, extra: u64)
    requires
        entries_wf(s),
        0 <= p < s.len(),
        entry_wf(e),
        entry_input_id(e) == entry_input_id(s[p]),
        forall|id: u64| #[trigger] entry_output_ids(e).contains(id) ==> entry_output_ids(
            s[p],
        ).contains(id) || id == extra,
        forall|k: int|
            0 <= k < s.len() ==> !(#[trigger] entry_output_ids(s[k]).contains(extra)),
    ensures
        entries_wf(s.update(p, e)),
{
    let r = s.update(p, e);
    assert forall|i: int| 0 <= i < r.len() implies entry_wf(#[trigger] r[i]) by {
        if i != p {
            assert(r[i] == s[i]);
        }
    }
    assert forall|i: int, j: int| 0 <= i < j < r.len() implies entry_input_id(#[trigger] r[i])
        != entry_input_id(#[trigger] r[j]) by {
        if i != p {
            assert(r[i] == s[i]);
        }
        if j != p {
            assert(r[j] == s[j]);
        }
    }
    assert forall|i: int, j: int, id: u64|
        0 <= i < r.len() && 0 <= j < r.len() && i != j && #[trigger] entry_output_ids(
            r[i],
        ).contains(id) implies !(#[trigger] entry_output_ids(r[j]).contains(id)) by {
        if i == p {
            assert(r[j] == s[j]);
            if entry_output_ids(s[p]).contains(id) {
            } else {
                assert(id == extra);
            }
        } else if j == p {
            assert(r[i] == s[i]);
            if entry_output_ids(e).contains(id) {
                if entry_output_ids(s[p]).contains(id) {
                } else {
                    assert(id == extra);
                }
            }
        } else {
            assert(r[i] == s[i]);
            assert(r[j] == s[j]);
        }
    }
}

/// The dispatcher: the configured command prefix and the bounded store
/// of live entries, searched by input message id for edits and by
/// shown message id for interactions. One store with two lookup keys
/// stands in for a pair of mirrored collections, so an update cannot
/// diverge between the edit surface and the interaction surface.
pub struct EventRouter {
    pub prefix: String,
    pub registry: Registry,
}

/// Well-formedness of the router's store.
pub open spec fn router_wf(r: EventRouter) -> bool {
    reg_wf(r.registry) && entries_wf(r.registry.entries@)
}

/// The text after the prefix.
pub open spec fn prefix_rest(prefix: Seq<char>, s: Seq<char>) -> Seq<char> {
    s.subrange(prefix.len() as int, s.len() as int)
}

/// Where the command word ends.
pub open spec fn word_end(rest: Seq<char>) -> int {
    find_char_from(rest, ' ', 0)
}

/// The command word of a prefixed message.
pub open spec fn cmd_word(rest: Seq<char>) -> Seq<char> {
    rest.subrange(0, word_end(rest))
}

/// The argument text of a prefixed message: everything after the first
/// space, empty when there is none.
pub open spec fn cmd_args(rest: Seq<char>) -> Seq<char> {
    if word_end(rest) < rest.len() {
        rest.subrange(word_end(rest) + 1, rest.len() as int)
    } else {
        Seq::empty()
    }
}

pub open spec fn ping_word() -> Seq<char> {
    seq!['p', 'i', 'n', 'g']
}

pub open spec fn about_word() -> Seq<char> {
    seq!['a', 'b', 'o', 'u', 't']
}

pub open spec fn invite_word() -> Seq<char> {
    seq!['i', 'n', 'v', 'i', 't', 'e']
}

pub open spec fn help_word() -> Seq<char> {
    seq!['h', 'e', 'l', 'p']
}

/// Whether `w` is a command word that takes an argument.
pub open spec fn takes_arg(w: Seq<char>) -> bool {
    w == latex_word() || w == ascii_word() || w == wolfram_word() || w == w_word()
}

/// Whether `w` is any known command word.
pub open spec fn known_word(w: Seq<char>) -> bool {
    takes_arg(w) || w == ping_word() || w == about_word() || w == invite_word() || w
        == help_word()
}

/// Whether a message outside the command surface is rendered as inline
/// math: it holds an inline-math span and not the shrug sequence.
pub open spec fn inline_applies(s: Seq<char>) -> bool {
    has_inline_math(s) && !contains_seq(s, shrug_seq())
}

/// What routing decided for the message text `s` under `prefix`.
pub open spec fn route_ok(prefix: Seq<char>, s: Seq<char>, r: Option<Command>) -> bool {
    let sw = starts_with(s, prefix);
    let rest = prefix_rest(prefix, s);
    let word = cmd_word(rest);
    let args = cmd_args(rest);
    match r {
        Some(Command::Latex(a)) => sw && word == latex_word() && !blank(args) && a@ == args,
        Some(Command::Ascii(a)) => sw && word == ascii_word() && !blank(args) && a@ == args,
        Some(Command::Wolfram(a)) => sw && (word == wolfram_word() || word == w_word()) && !blank(
            args,
        ) && a@ == args,
        Some(Command::MissingArg) => sw && takes_arg(word) && blank(args),
        Some(Command::Ping) => sw && word == ping_word(),
        Some(Command::About) => sw && word == about_word(),
        Some(Command::Invite) => sw && word == invite_word(),
        Some(Command::Help) => sw && word == help_word(),
        Some(Command::Unknown(w)) => sw && !known_word(word) && !inline_applies(s) && w@ == word,
        Some(Command::Inline) => (sw ==> !known_word(word)) && inline_applies(s),
        None => !sw && !inline_applies(s),
    }
}

impl EventRouter {
    /// A fresh router with an empty store of the given capacity.
    pub fn new(prefix: String, capacity: usize) -> (r: EventRouter)
        ensures
            r.prefix == prefix,
            r.registry.entries@.len() == 0,
            r.registry.capacity == capacity,
            router_wf(r),
    {
        EventRouter { prefix, registry: Registry::new(capacity) }
    }

    /// Decides what a new inbound message asks for: a prefixed command
    /// word with its argument text, inline math, or nothing. A message
    /// that matches no command and no inline pattern gets no decision,
    /// so no entry is created and no message is sent for it.
    pub fn route_message(&self, content: &str) -> (r: Option<Command>)
        ensures
            route_ok(self.prefix@, content@, r),
    {
        let cs = to_char_vec(content);
        let pv = to_char_vec(self.prefix.as_str());
        if starts_with_exec(&cs, &pv) {
            let pl = pv.len();
            let n = cs.len();
            let rest_str = content.substring_char(pl, n);
            let rv = to_char_vec(rest_str);
            let we = find_char_exec(&rv, ' ', 0);
            proof {
                assert(rv@ == prefix_rest(self.prefix@, content@));
            }
            let latex = latex_word_chars();
            let ascii = ascii_word_chars();
            let wolfram = wolfram_word_chars();
            let w = w_word_chars();
            let is_latex = range_eq(&rv, 0, we, &latex);
            let is_ascii = range_eq(&rv, 0, we, &ascii);
            let is_wolfram = range_eq(&rv, 0, we, &wolfram);
            let is_w = range_eq(&rv, 0, we, &w);
            if is_latex || is_ascii || is_wolfram || is_w {
                if we < rv.len() && we + 1 < rv.len() && !crate::pattern::all_spaces_range(
                    &rv,
                    we + 1,
                    rv.len(),
                ) {
                    let args = rest_str.substring_char(we + 1, rv.len()).to_owned();
                    proof {
                        assert(args@ =~= cmd_args(rv@));
                    }
                    if is_latex {
                        Some(Command::Latex(args))
                    } else if is_ascii {
                        Some(Command::Ascii(args))
                    } else {
                        Some(Command::Wolfram(args))
                    }
                } else {
                    proof {
                        if we < rv@.len() && we + 1 < rv@.len() {
                        } else {
                            assert(blank(cmd_args(rv@)));
                        }
                    }
                    Some(Command::MissingArg)
                }
            } else {
                let ping = vec!['p', 'i', 'n', 'g'];
                let about = vec!['a', 'b', 'o', 'u', 't'];
                let invite = vec!['i', 'n', 'v', 'i', 't', 'e'];
                let help = vec!['h', 'e', 'l', 'p'];
                proof {
                    assert(ping@ =~= ping_word());
                    assert(about@ =~= about_word());
                    assert(invite@ =~= invite_word());
                    assert(help@ =~= help_word());
                }
                if range_eq(&rv, 0, we, &ping) {
                    Some(Command::Ping)
                } else if range_eq(&rv, 0, we, &about) {
                    Some(Command::About)
                } else if range_eq(&rv, 0, we, &invite) {
                    Some(Command::Invite)
                } else if range_eq(&rv, 0, we, &help) {
                    Some(Command::Help)
                } else {
                    let inline = has_inline_math_exec(&cs);
                    let excluded = if inline {
                        let shrug = shrug_chars();
                        crate::text::find_seq(&cs, &shrug)
                    } else {
                        false
                    };
                    if inline && !excluded {
                        Some(Command::Inline)
                    } else {
                        let word = rest_str.substring_char(0, we).to_owned();
                        Some(Command::Unknown(word))
                    }
                }
            }
        } else {
            let inline = has_inline_math_exec(&cs);
            if inline {
                let shrug = shrug_chars();
                if !crate::text::find_seq(&cs, &shrug) {
                    Some(Command::Inline)
                } else {
                    None
                }
            } else {
                None
            }
        }
    }

    /// Puts a fresh entry into the store, newest first, dropping the
    /// oldest entries beyond the capacity.
    pub fn register_entry(&mut self, e: LiveEntry)
        requires
            router_wf(*old(self)),
            entry_wf(e),
            ids_fresh_for(old(self).registry.entries@, e),
        ensures
            router_wf(*final(self)),
            final(self).prefix == old(self).prefix,
            final(self).registry.capacity == old(self).registry.capacity,
            final(self).registry.entries@ == push_model(
                old(self).registry.entries@,
                old(self).registry.capacity as nat,
                e,
            ),
    {
        proof {
            lemma_push_entries_wf(
                self.registry.entries@,
                self.registry.capacity as nat,
                e,
            );
        }
        self.registry.push(e);
    }

    /// Replaces the entry at `p`, keeping its position — the edited
    /// entry must answer the same input message, and show only ids no
    /// other entry shows.
    pub fn replace_entry(&mut self, p: usize, e: LiveEntry)
        requires
            router_wf(*old(self)),
            p < old(self).registry.entries@.len(),
            entry_wf(e),
            entry_input_id(e) == entry_input_id(old(self).registry.entries@[p as int]),
            ids_fresh_except(old(self).registry.entries@, e, p as int),
        ensures
            router_wf(*final(self)),
            final(self).prefix == old(self).prefix,
            final(self).registry.capacity == old(self).registry.capacity,
            final(self).registry.entries@ == old(self).registry.entries@.update(p as int, e),
    {
        proof {
            lemma_update_entries_wf(self.registry.entries@, p as int, e);
        }
        self.registry.replace_at(p, e);
    }

    /// Decides what to do about an edited input message: find the entry
    /// answering it, re-derive the command from the edited text with
    /// the patterns of the entry's kind, and — when one matches — plan
    /// the deletion of the old output messages and the recomputation.
    /// The re-derived kind follows the edited text alone, so an edit
    /// from one markup language to the other changes the planned
    /// variant.
    pub fn plan_edit(&self, edited_id: u64, new_content: &str) -> (r: EditPlan)
        ensures
            match r {
                EditPlan::NotFound => forall|k: int|
                    0 <= k < self.registry.entries@.len() ==> entry_input_id(
                        #[trigger] self.registry.entries@[k],
                    ) != edited_id,
                EditPlan::Stale => exists|p: int|
                    {
                        &&& 0 <= p < self.registry.entries@.len()
                        &&& entry_input_id(#[trigger] self.registry.entries@[p]) == edited_id
                        &&& match self.registry.entries@[p] {
                            LiveEntry::Math(_) => !edit_cmd_match(
                                self.prefix@,
                                latex_word(),
                                new_content@,
                            ) && !edit_cmd_match(self.prefix@, ascii_word(), new_content@),
                            LiveEntry::Wolf(_) => !edit_cmd_match(
                                self.prefix@,
                                wolfram_word(),
                                new_content@,
                            ) && !edit_cmd_match(self.prefix@, w_word(), new_content@),
                        }
                    },
                EditPlan::Math(p, ids, text) => {
                    &&& p < self.registry.entries@.len()
                    &&& entry_input_id(self.registry.entries@[p as int]) == edited_id
                    &&& self.registry.entries@[p as int] is Math
                    &&& ids@ == entry_output_ids(self.registry.entries@[p as int])
                    &&& match text {
                        MathText::Latex(a) => edit_cmd_match(
                            self.prefix@,
                            latex_word(),
                            new_content@,
                        ) && a@ == crate::pattern::edit_cmd_args(
                            self.prefix@,
                            latex_word(),
                            new_content@,
                        ),
                        MathText::AsciiMath(a) => !edit_cmd_match(
                            self.prefix@,
                            latex_word(),
                            new_content@,
                        ) && edit_cmd_match(self.prefix@, ascii_word(), new_content@) && a@
                            == crate::pattern::edit_cmd_args(
                            self.prefix@,
                            ascii_word(),
                            new_content@,
                        ),
                    }
                },
                EditPlan::Wolf(p, ids, query) => {
                    &&& p < self.registry.entries@.len()
                    &&& entry_input_id(self.registry.entries@[p as int]) == edited_id
                    &&& self.registry.entries@[p as int] is Wolf
                    &&& ids@ == entry_output_ids(self.registry.entries@[p as int])
                    &&& (edit_cmd_match(self.prefix@, wolfram_word(), new_content@) || edit_cmd_match(
                        self.prefix@,
                        w_word(),
                        new_content@,
                    ))
                    &&& (if edit_cmd_match(self.prefix@, wolfram_word(), new_content@) {
                        query@ == crate::pattern::edit_cmd_args(
                            self.prefix@,
                            wolfram_word(),
                            new_content@,
                        )
                    } else {
                        query@ == crate::pattern::edit_cmd_args(
                            self.prefix@,
                            w_word(),
                            new_content@,
                        )
                    })
                },
            },
    {
        let found = self.registry.find_by_input(edited_id);
        match found {
            None => EditPlan::NotFound,
            Some(p) => {
                let entry = self.registry.get(p);
                match entry {
                    LiveEntry::Math(_) => {
                        match classify_markup_edit(self.prefix.as_str(), new_content) {
                            Some(text) => {
                                let ids = self.registry.get(p).get_response_message_id();
                                EditPlan::Math(p, ids, text)
                            },
                            None => EditPlan::Stale,
                        }
                    },
                    LiveEntry::Wolf(_) => {
                        match classify_wolfram_edit(self.prefix.as_str(), new_content) {
                            Some((_, query)) => {
                                let ids = self.registry.get(p).get_response_message_id();
                                EditPlan::Wolf(p, ids, query)
                            },
                            None => EditPlan::Stale,
                        }
                    },
                }
            },
        }
    }

    /// Routes one component interaction: finds the entry showing the
    /// clicked message, lets it respond, and hands back the planned
    /// steps. A click on a message no entry shows changes nothing; a
    /// click by anyone but the entry's owner changes nothing. Any id
    /// the interaction stopped showing can no longer be found in the
    /// store afterwards.
    pub fn handle_interaction(&mut self, message_id: u64, user_id: u64, data: &ComponentData) -> (
        out: InteractionOutcome)
        requires
            router_wf(*old(self)),
        ensures
            router_wf(*final(self)),
            final(self).prefix == old(self).prefix,
            final(self).registry.capacity == old(self).registry.capacity,
            match out.index {
                None => {
                    &&& *final(self) == *old(self)
                    &&& out.actions@.len() == 0
                    &&& forall|k: int|
                        0 <= k < old(self).registry.entries@.len() ==> !entry_output_ids(
                            #[trigger] old(self).registry.entries@[k],
                        ).contains(message_id)
                },
                Some(p) => {
                    let s0 = old(self).registry.entries@;
                    let s1 = final(self).registry.entries@;
                    &&& p < s0.len()
                    &&& s1.len() == s0.len()
                    &&& entry_output_ids(s0[p as int]).contains(message_id)
                    &&& (forall|k: int| 0 <= k < s0.len() && k != p ==> #[trigger] s1[k] == s0[k])
                    &&& (user_id != entry_owner_id(s0[p as int]) ==> s1[p as int] == s0[p as int]
                        && out.actions@.len() == 0)
                    &&& (match s0[p as int] {
                        LiveEntry::Wolf(w0) => s1[p as int] matches LiveEntry::Wolf(w1) && {
                            &&& w1.result == w0.result
                            &&& w1.inp_message == w0.inp_message
                            &&& (user_id == entry_owner_id(s0[p as int])
                                ==> interaction_transition(
                                w0,
                                w1,
                                message_id,
                                *data,
                                out.actions@,
                            ))
                        },
                        LiveEntry::Math(m0) => s1[p as int] matches LiveEntry::Math(m1) && (user_id
                            == entry_owner_id(s0[p as int]) ==> snip_transition(
                            m0,
                            m1,
                            *data,
                            out.actions@,
                        )),
                    })
                    &&& (forall|id: u64, k: int|
                        entry_output_ids(s0[p as int]).contains(id) && !entry_output_ids(
                            s1[p as int],
                        ).contains(id) && 0 <= k < s1.len() ==> !(#[trigger] entry_output_ids(
                            s1[k],
                        ).contains(id)))
                },
            },
    {
        let found = self.registry.find_by_output(message_id);
        match found {
            None => InteractionOutcome { index: None, actions: Vec::new() },
            Some(p) => {
                let ghost s0 = self.registry.entries@;
                let e = &mut self.registry.entries[p];
                let actions = match e {
                    LiveEntry::Math(m) => {
                        let deleted = match data {
                            ComponentData::Button(cid) => m.interaction_respond(
                                user_id,
                                cid.as_str(),
                            ),
                            ComponentData::SelectMenu(_) => None,
                        };
                        let mut acts: Vec<Action> = Vec::new();
                        if let Some(mid) = deleted {
                            acts.push(Action::DeleteMessage(mid));
                        }
                        proof {
                            if deleted is Some {
                                assert(acts@ =~= seq![
                                    Action::DeleteMessage(deleted.unwrap()),
                                ]);
                            }
                        }
                        acts
                    },
                    LiveEntry::Wolf(w) => w.interaction_respond(user_id, message_id, data),
                };
                proof {
                    let s1 = self.registry.entries@;
                    assert(s1 == s0.update(p as int, s1[p as int]));
                    assert forall|k: int| 0 <= k < s0.len() && k != p implies #[trigger] s1[k]
                        == s0[k] by {}
                    assert forall|id: u64| entry_output_ids(s1[p as int]).contains(id) implies
                        entry_output_ids(s0[p as int]).contains(id) by {
                        match s0[p as int] {
                            LiveEntry::Math(m0) => {
                                let m1 = s1[p as int]->Math_0;
                                if m1.message is Some {
                                    assert(entry_output_ids(s1[p as int])
                                        =~= entry_output_ids(s0[p as int]));
                                }
                            },
                            LiveEntry::Wolf(_) => {},
                        }
                    }
                    assert(entries_wf(s1)) by {
                        lemma_update_entries_wf_weak(s0, p as int, s1[p as int]);
                    }
                }
                InteractionOutcome { index: Some(p), actions }
            },
        }
    }

    /// Records that pod `pod_index` of the query entry at `p` now shows
    /// the freshly sent message `id`.
    pub fn record_pod_sent(&mut self, p: usize, pod_index: usize, id: u64)
        requires
            router_wf(*old(self)),
            p < old(self).registry.entries@.len(),
            old(self).registry.entries@[p as int] matches LiveEntry::Wolf(w) && pod_index
                < w.pod_messages@.len(),
            forall|k: int|
                0 <= k < old(self).registry.entries@.len() ==> !entry_output_ids(
                    #[trigger] old(self).registry.entries@[k],
                ).contains(id),
        ensures
            router_wf(*final(self)),
            final(self).prefix == old(self).prefix,
            final(self).registry.capacity == old(self).registry.capacity,
            final(self).registry.entries@.len() == old(self).registry.entries@.len(),
            (forall|k: int|
                0 <= k < old(self).registry.entries@.len() && k != p
                    ==> #[trigger] final(self).registry.entries@[k] == old(
                    self,
                ).registry.entries@[k]),
            ({
                let w0 = old(self).registry.entries@[p as int]->Wolf_0;
                final(self).registry.entries@[p as int] matches LiveEntry::Wolf(w1) && {
                    &&& w1.result == w0.result
                    &&& w1.inp_message == w0.inp_message
                    &&& w1.header_message == w0.header_message
                    &&& w1.pod_messages@ == w0.pod_messages@.update(
                        pod_index as int,
                        (PodMessage {
                            message: Some(id),
                            ..w0.pod_messages@[pod_index as int]
                        }),
                    )
                }
            }),
    {
        let ghost s0 = self.registry.entries@;
        let e = &mut self.registry.entries[p];
        match e {
            LiveEntry::Wolf(w) => {
                w.record_pod_sent(pod_index, id);
            },
            LiveEntry::Math(_) => {
                proof {
                    assert(false);
                }
            },
        }
        proof {
            let s1 = self.registry.entries@;
            assert(s1 == s0.update(p as int, s1[p as int]));
            lemma_update_entries_wf_plus(s0, p as int, s1[p as int], id);
        }
    }
}

} // verus!
