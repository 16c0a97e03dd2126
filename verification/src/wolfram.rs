//! Query-result entries: one upstream query tied to the user message
//! that asked it, a header message listing the result's pods, and one
//! optional detail message per pod with a movable sub-item cursor.
use vstd::prelude::*;
use vstd::string::StringExecFns;
use crate::errors::Error;
use crate::errors::err_msg;
use crate::errors::error_description;
use crate::errors::error_text;
use crate::message::EmbedSpec;
use crate::message::FieldSpec;
use crate::message::FooterSpec;
use crate::message::MenuSpec;
use crate::message::MessageMeta;
use crate::message::MessageSpec;
use crate::message::requested_by;
use crate::message::requested_by_text;
use crate::pattern::edit_cmd_args;
use crate::pattern::edit_cmd_match;
use crate::pattern::edit_match;
use crate::text::dec_seq;
use crate::text::usize_to_string;
use crate::utils::Buttons;
use crate::utils::MenuItem;
use crate::utils::matches_button;
use vstd::arithmetic::div_mod::lemma_small_mod;

verus! {

/// The kind of pattern a query request came in by.
pub enum CmdType {
    Wolfram,
}

/// One option of the upstream query URL.
#[derive(Clone)]
pub enum Opt {
    Output(String),
    Input(String),
    Format(String),
}

/// What `urlencoding::encode` returns for `s`: a function of the
/// characters alone.
pub uninterp spec fn encoded_of(s: Seq<char>) -> Seq<char>;

/// Relies on urlencoding::encode: percent-encodes every byte except
/// ASCII alphanumerics and `-`, `_`, `.`, `~`. The result depends on
/// the input characters alone, and an empty input stays empty.
#[verifier::external_body]
fn urlencode(s: &str) -> (r: String)
    ensures
        r@ == encoded_of(s@),
        s@.len() == 0 ==> r@.len() == 0,
{
    urlencoding::encode(s).into_owned()
}

/// The URL fragment each option contributes.
pub open spec fn opt_fragment(o: Opt) -> Seq<char> {
    match o {
        Opt::Output(s) => "output="@ + encoded_of(s@),
        Opt::Input(s) => "input="@ + encoded_of(s@),
        Opt::Format(s) => "format="@ + encoded_of(s@),
    }
}

impl Opt {
    /// This option as a `key=value` URL fragment, the value
    /// percent-encoded.
    pub fn to_query_fragment(&self) -> (r: String)
        ensures
            r@ == opt_fragment(*self),
    {
        match self {
            Opt::Output(s) => {
                let mut r = "output=".to_owned();
                let e = urlencode(s.as_str());
                r.append(e.as_str());
                r
            },
            Opt::Input(s) => {
                let mut r = "input=".to_owned();
                let e = urlencode(s.as_str());
                r.append(e.as_str());
                r
            },
            Opt::Format(s) => {
                let mut r = "format=".to_owned();
                let e = urlencode(s.as_str());
                r.append(e.as_str());
                r
            },
        }
    }
}

/// The `&`-joined fragments of a list of options.
pub open spec fn amp_fragments(opts: Seq<Opt>) -> Seq<char>
    decreases opts.len(),
{
    if opts.len() == 0 {
        Seq::empty()
    } else {
        amp_fragments(opts.drop_last()) + "&"@ + opt_fragment(opts.last())
    }
}

/// The base address of the upstream query endpoint.
pub open spec fn query_base() -> Seq<char> {
    "https://api.wolframalpha.com/v2/query?appid="@
}

/// Builds the full query URL: the endpoint, the application id, the
/// encoded input and the remaining encoded options.
pub fn build_query_url(appid: &str, input: &Opt, options: &Vec<Opt>) -> (u: String)
    ensures
        u@ == query_base() + appid@ + "&"@ + opt_fragment(*input) + amp_fragments(options@),
{
    let mut u = "https://api.wolframalpha.com/v2/query?appid=".to_owned();
    u.append(appid);
    u.append("&");
    let f = input.to_query_fragment();
    u.append(f.as_str());
    let mut i: usize = 0;
    while i < options.len()
        invariant
            i <= options@.len(),
            u@ == query_base() + appid@ + "&"@ + opt_fragment(*input) + amp_fragments(
                options@.subrange(0, i as int),
            ),
        decreases options@.len() - i,
    {
        u.append("&");
        let f = options[i].to_query_fragment();
        u.append(f.as_str());
        i = i + 1;
        proof {
            let pre = options@.subrange(0, i as int);
            assert(pre.drop_last() =~= options@.subrange(0, i - 1));
            assert(pre.last() == options@[i - 1]);
        }
    }
    proof {
        assert(options@.subrange(0, options@.len() as int) =~= options@);
    }
    u
}

/// An image reference inside a query result.
#[derive(Clone)]
pub struct Image {
    pub src: String,
    pub title: String,
    pub alt: String,
    pub img_type: String,
}

impl Image {
    pub fn new(src: String, alt: String, title: String, img_type: String) -> (r: Image)
        ensures
            r.src == src,
            r.alt == alt,
            r.title == title,
            r.img_type == img_type,
    {
        Image { src, title, alt, img_type }
    }
}

/// One displayable sub-item of a pod.
#[derive(Clone)]
pub struct Subpod {
    pub title: String,
    pub image: Image,
}

impl Subpod {
    pub fn new(title: String, image: Image) -> (r: Subpod)
        ensures
            r.title == title,
            r.image == image,
    {
        Subpod { title, image }
    }
}

/// One titled section of a query result.
#[derive(Clone)]
pub struct Pod {
    pub title: String,
    pub subpods: Vec<Subpod>,
}

impl Pod {
    pub fn new(title: String, subpods: Vec<Subpod>) -> (r: Pod)
        ensures
            r.title == title,
            r.subpods == subpods,
    {
        Pod { title, subpods }
    }
}

/// A parsed upstream answer: the query, its pods, the upstream failure
/// (its message and code) when the service reported one, and the
/// upstream spelling suggestion shown when no pod came.
pub struct QueryResult {
    pub input: Opt,
    pub pods: Vec<Pod>,
    pub error: Option<(String, u32)>,
    pub didyoumean: Option<String>,
    pub options: Vec<Opt>,
}

impl QueryResult {
    pub fn new(
        input: Opt,
        pods: Vec<Pod>,
        error: Option<(String, u32)>,
        didyoumean: Option<String>,
        options: Vec<Opt>,
    ) -> (r: QueryResult)
        ensures
            r.input == input,
            r.pods == pods,
            r.error == error,
            r.didyoumean == didyoumean,
            r.options == options,
    {
        QueryResult { input, pods, error, didyoumean, options }
    }
}

/// The way a sub-item cursor moves.
pub enum Direction {
    Next,
    Prev,
}

/// The cursor position after one step among `n` sub-items, wrapping at
/// both ends.
pub open spec fn advance_spec(cur: nat, n: nat, dir: Direction) -> nat {
    match dir {
        Direction::Next => if cur + 1 == n {
            0
        } else {
            cur + 1
        },
        Direction::Prev => if cur == 0 {
            (n - 1) as nat
        } else {
            (cur - 1) as nat
        },
    }
}

/// One step of the cursor is exactly a step modulo the sub-item count.
pub proof fn lemma_advance_is_mod(cur: nat, n: nat, dir: Direction)
    requires
        n > 0,
        cur < n,
    ensures
        advance_spec(cur, n, Direction::Next) == (cur as int + 1) % (n as int),
        advance_spec(cur, n, Direction::Prev) == (cur as int + n as int - 1) % (n as int),
{
    if cur + 1 == n {
        assert((n as int) % (n as int) == 0) by (nonlinear_arith)
            requires
                n > 0,
        ;
    } else {
        lemma_small_mod((cur + 1) as nat, n);
    }
    if cur == 0 {
        lemma_small_mod((n - 1) as nat, n);
    } else {
        assert((cur as int + n as int - 1) % (n as int) == cur as int - 1) by (nonlinear_arith)
            requires
                n > 0,
                0 < cur < n,
        ;
    }
}

/// The cursor after `k` forward steps among `n` sub-items.
pub open spec fn iter_next(cur: nat, n: nat, k: nat) -> nat
    decreases k,
{
    if k == 0 {
        cur
    } else {
        advance_spec(iter_next(cur, n, (k - 1) as nat), n, Direction::Next)
    }
}

proof fn lemma_iter_next_val(n: nat, k: nat)
    requires
        n > 0,
        k <= n,
    ensures
        iter_next(0, n, k) == if k < n {
            k
        } else {
            0 as nat
        },
    decreases k,
{
    if k > 0 {
        lemma_iter_next_val(n, (k - 1) as nat);
    }
}

/// As many forward steps as there are sub-items bring the cursor back
/// to the start: the cursor walk is a cycle of length `n`.
pub proof fn lemma_cursor_wraps(n: nat)
    requires
        n > 0,
    ensures
        iter_next(0, n, n) == 0,
{
    lemma_iter_next_val(n, n);
}

/// The detail message of one pod: the pod and the sub-item cursor, plus
/// the id of the sent detail message once one was sent.
pub struct PodMessage {
    pub pod: Pod,
    pub curr_spod: usize,
    pub message: Option<u64>,
}

/// The cursor of a pod message stays inside its sub-item list (or at
/// zero when the list is empty).
pub open spec fn pod_wf(p: PodMessage) -> bool {
    p.curr_spod < p.pod.subpods@.len() || p.curr_spod == 0
}

/// Whether `m` is the planned detail message for `pod`: its title, the
/// image of the sub-item at the cursor `spod`, and a delete control,
/// with cursor controls exactly when there is more than one sub-item.
pub open spec fn matches_pod_message(m: MessageSpec, pod: Pod, spod: int) -> bool {
    &&& m.embed matches Some(e) && {
        &&& e.title@ == pod.title@
        &&& e.description@.len() == 0
        &&& e.image matches Some(u) && u@ == pod.subpods@[spod].image.src@
        &&& e.fields@.len() == 0
        &&& e.footer is None
    }
    &&& m.content is None
    &&& m.attachment is None
    &&& m.menu is None
    &&& m.button_rows@.len() == 1
    &&& if pod.subpods@.len() > 1 {
        &&& m.button_rows@[0].len() == 3
        &&& matches_button(m.button_rows@[0][0], Buttons::Delete)
        &&& matches_button(m.button_rows@[0][1], Buttons::Prev)
        &&& matches_button(m.button_rows@[0][2], Buttons::Next)
    } else {
        &&& m.button_rows@[0].len() == 1
        &&& matches_button(m.button_rows@[0][0], Buttons::Delete)
    }
}

/// Whether `m` is the planned in-place edit showing sub-item `spod` of
/// `pod`: only the embed, with the pod title and that sub-item's image.
pub open spec fn matches_spod_embed(m: MessageSpec, pod: Pod, spod: int) -> bool {
    &&& m.embed matches Some(e) && {
        &&& e.title@ == pod.title@
        &&& e.description@.len() == 0
        &&& e.image matches Some(u) && u@ == pod.subpods@[spod].image.src@
        &&& e.fields@.len() == 0
        &&& e.footer is None
    }
    &&& m.content is None
    &&& m.attachment is None
    &&& m.menu is None
    &&& m.button_rows@.len() == 0
}

impl PodMessage {
    /// A fresh detail record for `pod`: cursor at the first sub-item,
    /// no message sent yet.
    pub fn new(pod: Pod) -> (r: PodMessage)
        ensures
            r.pod == pod,
            r.curr_spod == 0,
            r.message is None,
    {
        PodMessage { pod, curr_spod: 0, message: None }
    }

    /// The cursor position one step from the current one, wrapping at
    /// both ends.
    pub fn advance_cursor(&self, dir: Direction) -> (r: usize)
        requires
            self.pod.subpods@.len() > 0,
            pod_wf(*self),
        ensures
            r as nat == advance_spec(self.curr_spod as nat, self.pod.subpods@.len(), dir),
            r < self.pod.subpods@.len(),
    {
        let n = self.pod.subpods.len();
        match dir {
            Direction::Next => {
                if self.curr_spod == n - 1 {
                    0
                } else {
                    self.curr_spod + 1
                }
            },
            Direction::Prev => {
                if self.curr_spod == 0 {
                    n - 1
                } else {
                    self.curr_spod - 1
                }
            },
        }
    }

    /// Plans the detail message for this pod, showing the sub-item the
    /// cursor stands at.
    pub fn compose_message(&self) -> (m: MessageSpec)
        requires
            self.pod.subpods@.len() > 0,
            pod_wf(*self),
        ensures
            matches_pod_message(m, self.pod, self.curr_spod as int),
    {
        let mut buttons = vec![Buttons::Delete];
        if self.pod.subpods.len() > 1 {
            buttons.push(Buttons::Prev);
            buttons.push(Buttons::Next);
        }
        let n_buttons = buttons.len();
        let rows = Buttons::add_buttons(buttons);
        proof {
            assert(rows@[0].len() == n_buttons);
        }
        MessageSpec {
            content: None,
            embed: Some(
                EmbedSpec {
                    title: self.pod.title.clone(),
                    description: String::new(),
                    image: Some(self.pod.subpods[self.curr_spod].image.src.clone()),
                    fields: Vec::new(),
                    footer: None,
                },
            ),
            attachment: None,
            button_rows: rows,
            menu: None,
        }
    }

    /// Plans the in-place edit showing sub-item `spod`.
    pub fn compose_spod_edit(&self, spod: usize) -> (m: MessageSpec)
        requires
            spod < self.pod.subpods@.len(),
        ensures
            matches_spod_embed(m, self.pod, spod as int),
    {
        MessageSpec {
            content: None,
            embed: Some(
                EmbedSpec {
                    title: self.pod.title.clone(),
                    description: String::new(),
                    image: Some(self.pod.subpods[spod].image.src.clone()),
                    fields: Vec::new(),
                    footer: None,
                },
            ),
            attachment: None,
            button_rows: Vec::new(),
            menu: None,
        }
    }

    /// Records that the detail message was sent under `id`.
    pub fn set_message(&mut self, id: u64)
        ensures
            *final(self) == (PodMessage { message: Some(id), ..*old(self) }),
    {
        self.message = Some(id);
    }

    /// Takes the detail message down in the record, returning the id to
    /// delete, if one was shown.
    pub fn delete_message(&mut self) -> (r: Option<u64>)
        ensures
            *final(self) == (PodMessage { message: None, ..*old(self) }),
            r == old(self).message,
    {
        let r = self.message;
        self.message = None;
        r
    }

    /// Moves the cursor to `spod` if a detail message is shown, and
    /// plans the in-place edit for it.
    pub fn change_spod(&mut self, spod: usize) -> (r: Option<(u64, MessageSpec)>)
        requires
            spod < old(self).pod.subpods@.len(),
        ensures
            match old(self).message {
                Some(mid) => {
                    &&& *final(self) == (PodMessage { curr_spod: spod, ..*old(self) })
                    &&& r matches Some((id, m)) && id == mid && matches_spod_embed(
                        m,
                        old(self).pod,
                        spod as int,
                    )
                },
                None => *final(self) == *old(self) && r is None,
            },
    {
        if let Some(mid) = self.message {
            let m = self.compose_spod_edit(spod);
            self.curr_spod = spod;
            Some((mid, m))
        } else {
            None
        }
    }
}

/// The id of the clicked control or the chosen menu values, as the
/// gateway delivers a component interaction.
pub enum ComponentData {
    Button(String),
    SelectMenu(Vec<String>),
}

/// One outward step a caller must perform after the bot decided on an
/// interaction or an edit.
pub enum Action {
    DeleteMessage(u64),
    EditMessage(u64, MessageSpec),
    SendPodMessage(usize, MessageSpec),
}

/// The ids of the sent detail messages among `pods`, in order.
pub open spec fn pod_ids(pods: Seq<PodMessage>) -> Seq<u64>
    decreases pods.len(),
{
    if pods.len() == 0 {
        Seq::empty()
    } else {
        pod_ids(pods.drop_last()) + (match pods.last().message {
            Some(m) => seq![m],
            None => Seq::empty(),
        })
    }
}

/// All ids of the bot messages currently showing `w`: the header, then
/// the sent detail messages.
pub open spec fn wolf_output_ids(w: WolfMessage) -> Seq<u64> {
    (match w.header_message {
        Some(h) => seq![h],
        None => Seq::empty(),
    }) + pod_ids(w.pod_messages@)
}

/// Well-formedness of a query entry: every cursor is inside its pod,
/// and the shown message ids are pairwise distinct.
pub open spec fn wolf_wf(w: WolfMessage) -> bool {
    &&& (forall|i: int| 0 <= i < w.pod_messages@.len() ==> pod_wf(#[trigger] w.pod_messages@[i]))
    &&& (forall|i: int, j: int|
        0 <= i < j < w.pod_messages@.len() && #[trigger] w.pod_messages@[i].message is Some
            && #[trigger] w.pod_messages@[j].message is Some ==> w.pod_messages@[i].message
            != w.pod_messages@[j].message)
    &&& (forall|i: int|
        0 <= i < w.pod_messages@.len() && w.header_message is Some ==> w.header_message
            != #[trigger] w.pod_messages@[i].message)
}

/// Whether some sent detail message among `pods` carries the id `mid`.
pub open spec fn pod_hit_exists(pods: Seq<PodMessage>, mid: u64) -> bool {
    exists|i: int| 0 <= i < pods.len() && #[trigger] pods[i].message == Some(mid)
}

/// The index of the sent detail message carrying `mid`.
pub open spec fn pod_hit_idx(pods: Seq<PodMessage>, mid: u64) -> int {
    choose|i: int| 0 <= i < pods.len() && #[trigger] pods[i].message == Some(mid)
}

/// Whether `new_pods` is `old_pods` with every detail message taken
/// down.
pub open spec fn pods_cleared(old_pods: Seq<PodMessage>, new_pods: Seq<PodMessage>) -> bool {
    &&& new_pods.len() == old_pods.len()
    &&& forall|i: int|
        0 <= i < old_pods.len() ==> #[trigger] new_pods[i] == (PodMessage {
            message: None,
            ..old_pods[i]
        })
}

/// The deletion steps for a list of message ids, in order.
pub open spec fn delete_acts(ids: Seq<u64>) -> Seq<Action> {
    ids.map_values(|x: u64| Action::DeleteMessage(x))
}

/// Whether the wire id `s` names the delete control.
pub open spec fn parses_delete(s: Seq<char>) -> bool {
    s == crate::utils::del_id()
}

/// Whether the wire id `s` names the next-sub-item control.
pub open spec fn parses_next(s: Seq<char>) -> bool {
    s == crate::utils::nex_id()
}

/// Whether the wire id `s` names the previous-sub-item control.
pub open spec fn parses_prev(s: Seq<char>) -> bool {
    s == crate::utils::pre_id()
}

/// The pod indexes a menu interaction asks to send, left to right,
/// skipping unknown values, already-shown pods, pods with no sub-item,
/// and repeats.
pub open spec fn menu_plan(pods: Seq<PodMessage>, vals: Seq<String>) -> Seq<int>
    decreases vals.len(),
{
    if vals.len() == 0 {
        Seq::empty()
    } else {
        let rest = menu_plan(pods, vals.drop_last());
        let s = vals.last()@;
        let n = crate::utils::pod_id_val(s) as int;
        if crate::utils::is_pod_id(s) && n < pods.len() && pods[n].message is None
            && pods[n].pod.subpods@.len() > 0 && !rest.contains(n) {
            rest.push(n)
        } else {
            rest
        }
    }
}

/// The state change and the planned steps of one component interaction
/// on a query entry whose owner clicked.
pub open spec fn interaction_transition(
    w0: WolfMessage,
    w1: WolfMessage,
    mid: u64,
    data: ComponentData,
    acts: Seq<Action>,
) -> bool {
    match data {
        ComponentData::Button(cid) => button_transition(w0, w1, mid, cid@, acts),
        ComponentData::SelectMenu(values) => menu_transition(w0, w1, mid, values@, acts),
    }
}

/// A button click: on a detail message it deletes that message or moves
/// its cursor; on the header it deletes the whole entry; anywhere else
/// it does nothing.
pub open spec fn button_transition(
    w0: WolfMessage,
    w1: WolfMessage,
    mid: u64,
    cid: Seq<char>,
    acts: Seq<Action>,
) -> bool {
    if pod_hit_exists(w0.pod_messages@, mid) {
        let p = pod_hit_idx(w0.pod_messages@, mid);
        let pm = w0.pod_messages@[p];
        if parses_delete(cid) {
            &&& w1.header_message == w0.header_message
            &&& w1.pod_messages@ == w0.pod_messages@.update(
                p,
                (PodMessage { message: None, ..pm }),
            )
            &&& acts == seq![Action::DeleteMessage(mid)]
        } else if (parses_next(cid) || parses_prev(cid)) && pm.pod.subpods@.len() > 0 {
            let dir = if parses_next(cid) {
                Direction::Next
            } else {
                Direction::Prev
            };
            let c2 = advance_spec(pm.curr_spod as nat, pm.pod.subpods@.len(), dir);
            &&& w1.header_message == w0.header_message
            &&& w1.pod_messages@.len() == w0.pod_messages@.len()
            &&& (forall|k: int|
                0 <= k < w0.pod_messages@.len() && k != p ==> #[trigger] w1.pod_messages@[k]
                    == w0.pod_messages@[k])
            &&& w1.pod_messages@[p] == (PodMessage { curr_spod: c2 as usize, ..pm })
            &&& acts.len() == 1
            &&& acts[0] matches Action::EditMessage(id, m) && id == mid && matches_spod_embed(
                m,
                pm.pod,
                c2 as int,
            )
        } else {
            w1 == w0 && acts.len() == 0
        }
    } else if w0.header_message == Some(mid) {
        if parses_delete(cid) {
            &&& w1.header_message is None
            &&& pods_cleared(w0.pod_messages@, w1.pod_messages@)
            &&& acts == seq![Action::DeleteMessage(mid)] + delete_acts(pod_ids(w0.pod_messages@))
        } else {
            w1 == w0 && acts.len() == 0
        }
    } else {
        w1 == w0 && acts.len() == 0
    }
}

/// A menu choice on the header plans the detail messages of the chosen
/// pods that are not shown yet; the entry itself does not change until
/// the caller reports the sent ids back.
pub open spec fn menu_transition(
    w0: WolfMessage,
    w1: WolfMessage,
    mid: u64,
    values: Seq<String>,
    acts: Seq<Action>,
) -> bool {
    if w0.header_message == Some(mid) {
        let plan = menu_plan(w0.pod_messages@, values);
        &&& w1 == w0
        &&& acts.len() == plan.len()
        &&& forall|k: int|
            0 <= k < plan.len() ==> (#[trigger] acts[k] matches Action::SendPodMessage(n, m) && n
                as int == plan[k] && matches_pod_message(
                m,
                w0.pod_messages@[plan[k]].pod,
                w0.pod_messages@[plan[k]].curr_spod as int,
            ))
    } else {
        w1 == w0 && acts.len() == 0
    }
}

/// One live query entry: the parsed result, the input message that
/// asked it, the header message once sent, and one detail record per
/// pod.
pub struct WolfMessage {
    pub result: QueryResult,
    pub inp_message: MessageMeta,
    pub header_message: Option<u64>,
    pub pod_messages: Vec<PodMessage>,
}

/// The source text of the query when the input option carries one.
pub open spec fn input_text(o: Opt) -> Seq<char> {
    match o {
        Opt::Input(s) => s@,
        _ => Seq::empty(),
    }
}

/// Whether `it` is the menu entry for pod `i` titled `title`.
pub open spec fn menu_item_ok(it: MenuItem, title: Seq<char>, i: int) -> bool {
    &&& it.label@ == title
    &&& it.emoji is None
    &&& it.value@ == crate::utils::pod_prefix() + dec_seq(i as nat)
    &&& it.description@ == "Pod "@ + dec_seq((i + 1) as nat)
}

/// The embed fields of the header: the query input, then — when no pod
/// came — the no-result notice, with the upstream suggestion if any.
pub open spec fn header_fields_ok(fields: Seq<FieldSpec>, w: WolfMessage) -> bool {
    let has_input = w.result.input is Input;
    let no_result = w.pod_messages@.len() == 0;
    let base: int = if has_input {
        1
    } else {
        0
    };
    &&& fields.len() == base + if no_result {
        1int
    } else {
        0
    }
    &&& (has_input ==> fields[0].name@ == "Input"@ && fields[0].value@ == input_text(
        w.result.input,
    ) && !fields[0].inline)
    &&& (no_result ==> {
        let f = fields[base];
        &&& !f.inline
        &&& match w.result.didyoumean {
            Some(d) => f.name@ == "No result found!"@ && f.value@ == "Did you mean:\n"@ + d@,
            None => f.name@ == "Uh oh"@ && f.value@ == "No result found!"@,
        }
    })
}

/// Whether `m` is the planned header message of `w`: the summary embed,
/// one selector entry per pod when there are pods, and a delete
/// control.
pub open spec fn matches_header_message(m: MessageSpec, w: WolfMessage) -> bool {
    &&& m.embed matches Some(e) && {
        &&& e.title@ == "Wolfram query"@
        &&& e.description@ == "Results provided by [Wolfram|Alpha](https://www.wolframalpha.com/)"@
        &&& e.image is None
        &&& header_fields_ok(e.fields@, w)
        &&& e.footer matches Some(f) && f.icon_url@ == w.inp_message.author.icon_url@ && f.text@
            == requested_by_text(
            w.inp_message.author.name@,
            w.inp_message.author.discriminator as nat,
        )
    }
    &&& m.content is None
    &&& m.attachment is None
    &&& (match m.menu {
        Some(menu) => w.pod_messages@.len() > 0 && menu.custom_id@ == crate::utils::pod_prefix()
            && menu.items@.len() == w.pod_messages@.len() && (forall|i: int|
            0 <= i < menu.items@.len() ==> menu_item_ok(
                #[trigger] menu.items@[i],
                w.pod_messages@[i].pod.title@,
                i,
            )),
        None => w.pod_messages@.len() == 0,
    })
    &&& m.button_rows@.len() == 1
    &&& m.button_rows@[0].len() == 1
    &&& matches_button(m.button_rows@[0][0], Buttons::Delete)
}

impl WolfMessage {
    /// A fresh entry for the result `r`: one detail record per pod in
    /// `pods`, nothing sent yet.
    pub fn new(r: QueryResult, inp: MessageMeta, pods: Vec<Pod>) -> (w: WolfMessage)
        ensures
            w.result == r,
            w.inp_message == inp,
            w.header_message is None,
            w.pod_messages@.len() == pods@.len(),
            forall|i: int|
                0 <= i < pods@.len() ==> #[trigger] w.pod_messages@[i] == (PodMessage {
                    pod: pods@[i],
                    curr_spod: 0,
                    message: None,
                }),
    {
        let ghost orig = pods@;
        let mut pods = pods;
        let mut pod_messages: Vec<PodMessage> = Vec::new();
        while pods.len() > 0
            invariant
                orig.len() == pod_messages@.len() + pods@.len(),
                pods@ == orig.subrange(pod_messages@.len() as int, orig.len() as int),
                forall|i: int|
                    0 <= i < pod_messages@.len() ==> #[trigger] pod_messages@[i] == (PodMessage {
                        pod: orig[i],
                        curr_spod: 0,
                        message: None,
                    }),
            decreases pods@.len(),
        {
            let ghost k = pod_messages@.len() as int;
            let p = pods.remove(0);
            proof {
                assert(p == orig[k]);
                assert(pods@ =~= orig.subrange(k + 1, orig.len() as int));
            }
            pod_messages.push(PodMessage::new(p));
        }
        WolfMessage { result: r, inp_message: inp, header_message: None, pod_messages }
    }

    /// The id of the input message this entry answers.
    pub fn get_input_message_id(&self) -> (r: u64)
        ensures
            r == self.inp_message.id,
    {
        self.inp_message.id
    }

    /// The ids of all bot messages currently showing this entry.
    pub fn get_response_message_id(&self) -> (r: Vec<u64>)
        ensures
            r@ == wolf_output_ids(*self),
    {
        let mut retvec: Vec<u64> = Vec::new();
        if let Some(h) = self.header_message {
            retvec.push(h);
        }
        let ghost head = match self.header_message {
            Some(h) => seq![h],
            None => Seq::<u64>::empty(),
        };
        proof {
            assert(retvec@ =~= head + pod_ids(self.pod_messages@.subrange(0, 0)));
        }
        let n = self.pod_messages.len();
        let mut i: usize = 0;
        while i < n
            invariant
                i <= n,
                n == self.pod_messages@.len(),
                head == (match self.header_message {
                    Some(h) => seq![h],
                    None => Seq::<u64>::empty(),
                }),
                retvec@ == head + pod_ids(self.pod_messages@.subrange(0, i as int)),
            decreases n - i,
        {
            if let Some(m) = self.pod_messages[i].message {
                retvec.push(m);
            }
            i = i + 1;
            proof {
                let pre = self.pod_messages@.subrange(0, i as int);
                assert(pre.drop_last() =~= self.pod_messages@.subrange(0, i - 1));
                assert(pre.last() == self.pod_messages@[i - 1]);
                assert(retvec@ =~= head + pod_ids(pre));
            }
        }
        proof {
            assert(self.pod_messages@.subrange(0, n as int) =~= self.pod_messages@);
        }
        retvec
    }

    /// Records that the header message was sent under `id`.
    pub fn set_header_message(&mut self, id: u64)
        ensures
            *final(self) == (WolfMessage { header_message: Some(id), ..*old(self) }),
    {
        self.header_message = Some(id);
    }

    /// Records that pod `pod_index`'s detail message was sent under
    /// `id`.
    pub fn record_pod_sent(&mut self, pod_index: usize, id: u64)
        requires
            pod_index < old(self).pod_messages@.len(),
            wolf_wf(*old(self)),
            !wolf_output_ids(*old(self)).contains(id),
        ensures
            final(self).result == old(self).result,
            final(self).inp_message == old(self).inp_message,
            final(self).header_message == old(self).header_message,
            final(self).pod_messages@ == old(self).pod_messages@.update(
                pod_index as int,
                (PodMessage { message: Some(id), ..old(self).pod_messages@[pod_index as int] }),
            ),
            wolf_wf(*final(self)),
            forall|q: u64| #[trigger] wolf_output_ids(*final(self)).contains(q)
                ==> wolf_output_ids(*old(self)).contains(q) || q == id,
    {
        self.pod_messages[pod_index].message = Some(id);
        proof {
            assert(self.pod_messages@ =~= old(self).pod_messages@.update(
                pod_index as int,
                (PodMessage { message: Some(id), ..old(self).pod_messages@[pod_index as int] }),
            ));
            let a = old(self).pod_messages@;
            let b = self.pod_messages@;
            let pi = pod_index as int;
            assert(wolf_wf(*self)) by {
                assert forall|i: int, j: int|
                    0 <= i < j < b.len() && #[trigger] b[i].message is Some
                        && #[trigger] b[j].message is Some implies b[i].message
                    != b[j].message by {
                    if i == pi {
                        lemma_wolf_contains_pod_id(*old(self), j);
                    } else if j == pi {
                        lemma_wolf_contains_pod_id(*old(self), i);
                    }
                }
                assert forall|i: int|
                    0 <= i < b.len() && self.header_message is Some implies self.header_message
                    != #[trigger] b[i].message by {
                    if i == pi {
                        lemma_wolf_contains_header(*old(self));
                    }
                }
            }
            lemma_pod_ids_pointwise_bound(a, b, id);
            assert forall|q: u64| #[trigger] wolf_output_ids(*self).contains(q) implies
                wolf_output_ids(*old(self)).contains(q) || q == id by {
                let h = (match self.header_message {
                    Some(x) => seq![x],
                    None => Seq::<u64>::empty(),
                });
                let t = choose|t: int|
                    0 <= t < wolf_output_ids(*self).len() && wolf_output_ids(*self)[t] == q;
                if t < h.len() {
                    assert(wolf_output_ids(*old(self))[0] == q);
                } else {
                    assert(pod_ids(b)[t - h.len()] == q);
                    assert(pod_ids(b).contains(q));
                    if pod_ids(a).contains(q) {
                        let u = choose|u: int| 0 <= u < pod_ids(a).len() && pod_ids(a)[u] == q;
                        assert(wolf_output_ids(*old(self))[h.len() + u] == q);
                    }
                }
            }
        }
    }

    /// Takes the whole entry down in the record: every shown message id
    /// is returned for deletion and cleared here, so that none of them
    /// can be found again.
    pub fn delete(&mut self) -> (ids: Vec<u64>)
        ensures
            ids@ == wolf_output_ids(*old(self)),
            final(self).header_message is None,
            pods_cleared(old(self).pod_messages@, final(self).pod_messages@),
            final(self).result == old(self).result,
            final(self).inp_message == old(self).inp_message,
    {
        let mut ids: Vec<u64> = Vec::new();
        if let Some(h) = self.header_message {
            ids.push(h);
        }
        self.header_message = None;
        let ghost head = match old(self).header_message {
            Some(h) => seq![h],
            None => Seq::<u64>::empty(),
        };
        let ghost opods = old(self).pod_messages@;
        let n = self.pod_messages.len();
        let mut i: usize = 0;
        while i < n
            invariant
                i <= n,
                n == opods.len(),
                self.pod_messages@.len() == n,
                self.header_message is None,
                self.result == old(self).result,
                self.inp_message == old(self).inp_message,
                forall|k: int|
                    0 <= k < i ==> #[trigger] self.pod_messages@[k] == (PodMessage {
                        message: None,
                        ..opods[k]
                    }),
                forall|k: int| i <= k < n ==> #[trigger] self.pod_messages@[k] == opods[k],
                ids@ == head + pod_ids(opods.subrange(0, i as int)),
            decreases n - i,
        {
            if let Some(m) = self.pod_messages[i].message {
                ids.push(m);
            }
            self.pod_messages[i].message = None;
            i = i + 1;
            proof {
                let pre = opods.subrange(0, i as int);
                assert(pre.drop_last() =~= opods.subrange(0, i - 1));
                assert(pre.last() == opods[i - 1]);
                assert(ids@ =~= head + pod_ids(pre));
            }
        }
        proof {
            assert(opods.subrange(0, n as int) =~= opods);
        }
        ids
    }

    /// Plans the header message for this entry.
    pub fn compose_header_message(&self) -> (m: MessageSpec)
        ensures
            matches_header_message(m, *self),
    {
        let n = self.pod_messages.len();
        let mut m_items: Vec<MenuItem> = Vec::new();
        let mut i: usize = 0;
        while i < n
            invariant
                i <= n,
                n == self.pod_messages@.len(),
                m_items@.len() == i,
                forall|k: int|
                    0 <= k < i ==> menu_item_ok(
                        #[trigger] m_items@[k],
                        self.pod_messages@[k].pod.title@,
                        k,
                    ),
            decreases n - i,
        {
            let mut value = "POD".to_owned();
            let num = usize_to_string(i);
            value.append(num.as_str());
            proof {
                reveal_strlit("POD");
                assert("POD"@ =~= crate::utils::pod_prefix());
            }
            let mut descr = "Pod ".to_owned();
            let num2 = usize_to_string(i + 1);
            descr.append(num2.as_str());
            let it = MenuItem::new(self.pod_messages[i].pod.title.clone(), None, value, descr);
            m_items.push(it);
            i = i + 1;
        }
        let mut fields: Vec<FieldSpec> = Vec::new();
        match &self.result.input {
            Opt::Input(s) => {
                fields.push(FieldSpec { name: "Input".to_owned(), value: s.clone(), inline: false });
            },
            _ => {},
        }
        if n == 0 {
            match &self.result.didyoumean {
                Some(d) => {
                    let mut v = "Did you mean:\n".to_owned();
                    v.append(d.as_str());
                    fields.push(
                        FieldSpec { name: "No result found!".to_owned(), value: v, inline: false },
                    );
                },
                None => {
                    fields.push(
                        FieldSpec {
                            name: "Uh oh".to_owned(),
                            value: "No result found!".to_owned(),
                            inline: false,
                        },
                    );
                },
            }
        }
        let footer = FooterSpec {
            icon_url: self.inp_message.author.icon_url.clone(),
            text: requested_by(
                self.inp_message.author.name.as_str(),
                self.inp_message.author.discriminator,
            ),
        };
        let menu = if n > 0 {
            proof {
                reveal_strlit("POD");
                assert("POD"@ =~= crate::utils::pod_prefix());
            }
            Some(MenuSpec { custom_id: "POD".to_owned(), items: m_items })
        } else {
            None
        };
        let buttons = vec![Buttons::Delete];
        let rows = Buttons::add_buttons(buttons);
        MessageSpec {
            content: None,
            embed: Some(
                EmbedSpec {
                    title: "Wolfram query".to_owned(),
                    description:
                        "Results provided by [Wolfram|Alpha](https://www.wolframalpha.com/)".to_owned(),
                    image: None,
                    fields,
                    footer: Some(footer),
                },
            ),
            attachment: None,
            button_rows: rows,
            menu,
        }
    }

    /// Applies one component interaction to this entry and plans the
    /// outward steps. A click by anyone but the entry's owner changes
    /// nothing. A button on a detail message deletes it or moves its
    /// cursor; a button on the header deletes the whole entry; a menu
    /// choice on the header plans the chosen pods' detail messages,
    /// once each and only while not already shown.
    pub fn interaction_respond(&mut self, user_id: u64, message_id: u64, data: &ComponentData) -> (
        acts: Vec<Action>)
        requires
            wolf_wf(*old(self)),
        ensures
            wolf_wf(*final(self)),
            final(self).result == old(self).result,
            final(self).inp_message == old(self).inp_message,
            forall|id: u64| #[trigger] wolf_output_ids(*final(self)).contains(id)
                ==> wolf_output_ids(*old(self)).contains(id),
            old(self).inp_message.author.id != user_id ==> *final(self) == *old(self) && acts@.len()
                == 0,
            old(self).inp_message.author.id == user_id ==> interaction_transition(
                *old(self),
                *final(self),
                message_id,
                *data,
                acts@,
            ),
    {
        if self.inp_message.author.id != user_id {
            return Vec::new();
        }
        match data {
            ComponentData::Button(cid) => {
                let n = self.pod_messages.len();
                let mut hit: Option<usize> = None;
                let mut i: usize = 0;
                while i < n
                    invariant
                        i <= n,
                        n == self.pod_messages@.len(),
                        match hit {
                            Some(p) => p < i && self.pod_messages@[p as int].message == Some(
                                message_id,
                            ),
                            None => forall|k: int|
                                0 <= k < i ==> #[trigger] self.pod_messages@[k].message != Some(
                                    message_id,
                                ),
                        },
                    decreases n - i,
                {
                    if hit.is_none() {
                        if let Some(m) = self.pod_messages[i].message {
                            if m == message_id {
                                hit = Some(i);
                            }
                        }
                    }
                    i = i + 1;
                }
                let b = Buttons::from_id(cid.as_str());
                if let Some(p) = hit {
                    proof {
                        assert(pod_hit_exists(self.pod_messages@, message_id));
                        let q = pod_hit_idx(self.pod_messages@, message_id);
                        assert(0 <= q < self.pod_messages@.len() && self.pod_messages@[q].message
                            == Some(message_id));
                        assert(q == p);
                    }
                    match b {
                        Buttons::Delete => {
                            self.pod_messages[p].message = None;
                            let mut acts: Vec<Action> = Vec::new();
                            acts.push(Action::DeleteMessage(message_id));
                            proof {
                                assert(self.pod_messages@ =~= old(self).pod_messages@.update(
                                    p as int,
                                    (PodMessage {
                                        message: None,
                                        ..old(self).pod_messages@[p as int]
                                    }),
                                ));
                                assert(acts@ =~= seq![Action::DeleteMessage(message_id)]);
                                lemma_wolf_outputs_subset(*old(self), *self);
                            }
                            acts
                        },
                        Buttons::Next => {
                            if self.pod_messages[p].pod.subpods.len() > 0 {
                                let c2 = self.pod_messages[p].advance_cursor(Direction::Next);
                                let em = self.pod_messages[p].compose_spod_edit(c2);
                                self.pod_messages[p].curr_spod = c2;
                                let mut acts: Vec<Action> = Vec::new();
                                acts.push(Action::EditMessage(message_id, em));
                                proof {
                                    lemma_wolf_outputs_subset(*old(self), *self);
                                }
                                acts
                            } else {
                                Vec::new()
                            }
                        },
                        Buttons::Prev => {
                            if self.pod_messages[p].pod.subpods.len() > 0 {
                                let c2 = self.pod_messages[p].advance_cursor(Direction::Prev);
                                let em = self.pod_messages[p].compose_spod_edit(c2);
                                self.pod_messages[p].curr_spod = c2;
                                let mut acts: Vec<Action> = Vec::new();
                                acts.push(Action::EditMessage(message_id, em));
                                proof {
                                    lemma_wolf_outputs_subset(*old(self), *self);
                                }
                                acts
                            } else {
                                Vec::new()
                            }
                        },
                        _ => Vec::new(),
                    }
                } else {
                    let header_hit = match self.header_message {
                        Some(h) => h == message_id,
                        None => false,
                    };
                    if header_hit {
                        match b {
                            Buttons::Delete => {
                                let ids = self.delete();
                                let mut acts: Vec<Action> = Vec::new();
                                let mut k: usize = 0;
                                while k < ids.len()
                                    invariant
                                        k <= ids@.len(),
                                        acts@.len() == k,
                                        forall|t: int|
                                            0 <= t < k ==> #[trigger] acts@[t]
                                                == Action::DeleteMessage(ids@[t]),
                                    decreases ids@.len() - k,
                                {
                                    acts.push(Action::DeleteMessage(ids[k]));
                                    k = k + 1;
                                }
                                proof {
                                    assert(acts@ =~= seq![Action::DeleteMessage(message_id)]
                                        + delete_acts(pod_ids(old(self).pod_messages@)));
                                    lemma_wolf_outputs_subset(*old(self), *self);
                                }
                                acts
                            },
                            _ => Vec::new(),
                        }
                    } else {
                        Vec::new()
                    }
                }
            },
            ComponentData::SelectMenu(values) => {
                let header_hit = match self.header_message {
                    Some(h) => h == message_id,
                    None => false,
                };
                if header_hit {
                    let mut acts: Vec<Action> = Vec::new();
                    let mut planned: Vec<usize> = Vec::new();
                    let nv = values.len();
                    let mut k: usize = 0;
                    while k < nv
                        invariant
                            k <= nv,
                            nv == values@.len(),
                            *self == *old(self),
                            wolf_wf(*old(self)),
                            ({
                                let plan = menu_plan(
                                    self.pod_messages@,
                                    values@.subrange(0, k as int),
                                );
                                &&& planned@.len() == plan.len()
                                &&& (forall|t: int|
                                    0 <= t < plan.len() ==> #[trigger] planned@[t] as int
                                        == plan[t])
                                &&& acts@.len() == plan.len()
                                &&& (forall|t: int|
                                    0 <= t < plan.len() ==> (#[trigger] acts@[t] matches
                                        Action::SendPodMessage(n, m) && n as int == plan[t]
                                        && matches_pod_message(
                                        m,
                                        self.pod_messages@[plan[t]].pod,
                                        self.pod_messages@[plan[t]].curr_spod as int,
                                    )))
                            }),
                        decreases nv - k,
                    {
                        let ghost plan_pre = menu_plan(
                            self.pod_messages@,
                            values@.subrange(0, k as int),
                        );
                        match Buttons::from_id(values[k].as_str()) {
                            Buttons::Pod(_, nidx) => {
                                if nidx < self.pod_messages.len() && self.pod_messages[
                                    nidx
                                ].message.is_none() && self.pod_messages[nidx].pod.subpods.len()
                                    > 0 {
                                    let mut seen = false;
                                    let mut t: usize = 0;
                                    while t < planned.len()
                                        invariant
                                            t <= planned@.len(),
                                            seen == exists|u: int|
                                                0 <= u < t && planned@[u] == nidx,
                                        decreases planned@.len() - t,
                                    {
                                        if planned[t] == nidx {
                                            seen = true;
                                        }
                                        t = t + 1;
                                    }
                                    proof {
                                        if seen {
                                            let u = choose|u: int|
                                                0 <= u < planned@.len() && planned@[u] == nidx;
                                            assert(plan_pre[u] == nidx as int);
                                            assert(plan_pre.contains(nidx as int));
                                        } else {
                                            if plan_pre.contains(nidx as int) {
                                                let u = choose|u: int|
                                                    0 <= u < plan_pre.len() && plan_pre[u] == nidx
                                                        as int;
                                                assert(planned@[u] == nidx);
                                                assert(false);
                                            }
                                        }
                                    }
                                    if !seen {
                                        proof {
                                            assert(pod_wf(old(self).pod_messages@[nidx as int]));
                                            assert(self.pod_messages@[nidx as int] == old(
                                                self,
                                            ).pod_messages@[nidx as int]);
                                        }
                                        let m = self.pod_messages[nidx].compose_message();
                                        acts.push(Action::SendPodMessage(nidx, m));
                                        planned.push(nidx);
                                    }
                                }
                            },
                            _ => {},
                        }
                        k = k + 1;
                        proof {
                            let vals = values@.subrange(0, k as int);
                            assert(vals.drop_last() =~= values@.subrange(0, k - 1));
                            assert(vals.last() == values@[k - 1]);
                        }
                    }
                    proof {
                        assert(values@.subrange(0, nv as int) =~= values@);
                    }
                    acts
                } else {
                    Vec::new()
                }
            },
        }
    }
}

/// A pod list in which each detail message is kept or taken down shows
/// no id the old list did not show.
pub proof fn lemma_pod_ids_pointwise_subset(a: Seq<PodMessage>, b: Seq<PodMessage>)
    requires
        a.len() == b.len(),
        forall|k: int|
            0 <= k < a.len() ==> (#[trigger] b[k].message == a[k].message
                || b[k].message is None),
    ensures
        forall|id: u64| #[trigger] pod_ids(b).contains(id) ==> pod_ids(a).contains(id),
    decreases a.len(),
{
    if a.len() > 0 {
        let a1 = a.drop_last();
        let b1 = b.drop_last();
        lemma_pod_ids_pointwise_subset(a1, b1);
        assert forall|id: u64| #[trigger] pod_ids(b).contains(id) implies pod_ids(a).contains(
            id,
        ) by {
            let t = choose|t: int| 0 <= t < pod_ids(b).len() && pod_ids(b)[t] == id;
            if t < pod_ids(b1).len() {
                assert(pod_ids(b1)[t] == id);
                assert(pod_ids(b1).contains(id));
                assert(pod_ids(a1).contains(id));
                let u = choose|u: int| 0 <= u < pod_ids(a1).len() && pod_ids(a1)[u] == id;
                assert(pod_ids(a)[u] == id);
            } else {
                assert(b.last().message == Some(id));
                assert(a.last().message == Some(id));
                assert(pod_ids(a)[pod_ids(a1).len() as int] == id);
            }
        }
    }
}

/// A pod list whose detail messages are all taken down shows no id.
pub proof fn lemma_pod_ids_all_none(pods: Seq<PodMessage>)
    requires
        forall|k: int| 0 <= k < pods.len() ==> (#[trigger] pods[k].message) is None,
    ensures
        pod_ids(pods).len() == 0,
    decreases pods.len(),
{
    if pods.len() > 0 {
        lemma_pod_ids_all_none(pods.drop_last());
    }
}

/// An entry whose header is kept or taken down, and whose detail
/// messages are each kept or taken down, shows no id it did not show
/// before.
pub proof fn lemma_wolf_outputs_subset(w0: WolfMessage, w1: WolfMessage)
    requires
        w1.header_message == w0.header_message || w1.header_message is None,
        w1.pod_messages@.len() == w0.pod_messages@.len(),
        forall|k: int|
            0 <= k < w0.pod_messages@.len() ==> (#[trigger] w1.pod_messages@[k].message
                == w0.pod_messages@[k].message || w1.pod_messages@[k].message is None),
    ensures
        forall|id: u64| #[trigger] wolf_output_ids(w1).contains(id) ==> wolf_output_ids(
            w0,
        ).contains(id),
{
    lemma_pod_ids_pointwise_subset(w0.pod_messages@, w1.pod_messages@);
    let h0 = (match w0.header_message {
        Some(h) => seq![h],
        None => Seq::<u64>::empty(),
    });
    let h1 = (match w1.header_message {
        Some(h) => seq![h],
        None => Seq::<u64>::empty(),
    });
    assert forall|id: u64| #[trigger] wolf_output_ids(w1).contains(id) implies wolf_output_ids(
        w0,
    ).contains(id) by {
        let t = choose|t: int|
            0 <= t < wolf_output_ids(w1).len() && wolf_output_ids(w1)[t] == id;
        if t < h1.len() {
            assert(w1.header_message == Some(id));
            assert(w0.header_message == Some(id));
            assert(wolf_output_ids(w0)[0] == id);
        } else {
            assert(pod_ids(w1.pod_messages@)[t - h1.len()] == id);
            assert(pod_ids(w1.pod_messages@).contains(id));
            assert(pod_ids(w0.pod_messages@).contains(id));
            let u = choose|u: int|
                0 <= u < pod_ids(w0.pod_messages@).len() && pod_ids(w0.pod_messages@)[u] == id;
            assert(wolf_output_ids(w0)[h0.len() + u] == id);
        }
    }
}

/// After a delete of the whole entry nothing remains findable: the
/// entry's output-id list is empty.
pub proof fn lemma_cleared_outputs(w0: WolfMessage, w1: WolfMessage)
    requires
        w1.header_message is None,
        pods_cleared(w0.pod_messages@, w1.pod_messages@),
    ensures
        wolf_output_ids(w1).len() == 0,
{
    lemma_pod_ids_all_none(w1.pod_messages@);
}

/// A sent detail message's id is among the pod ids.
pub proof fn lemma_pod_ids_member(pods: Seq<PodMessage>, k: int)
    requires
        0 <= k < pods.len(),
        pods[k].message is Some,
    ensures
        pod_ids(pods).contains(pods[k].message->Some_0),
    decreases pods.len(),
{
    if k == pods.len() - 1 {
        assert(pod_ids(pods)[pod_ids(pods.drop_last()).len() as int] == pods[k].message->Some_0);
    } else {
        lemma_pod_ids_member(pods.drop_last(), k);
        let m = pods[k].message->Some_0;
        let u = choose|u: int|
            0 <= u < pod_ids(pods.drop_last()).len() && pod_ids(pods.drop_last())[u] == m;
        assert(pod_ids(pods)[u] == m);
    }
}

/// A shown pod id is among the entry's output ids.
pub proof fn lemma_wolf_contains_pod_id(w: WolfMessage, k: int)
    requires
        0 <= k < w.pod_messages@.len(),
        w.pod_messages@[k].message is Some,
    ensures
        wolf_output_ids(w).contains(w.pod_messages@[k].message->Some_0),
{
    lemma_pod_ids_member(w.pod_messages@, k);
    let m = w.pod_messages@[k].message->Some_0;
    let h = (match w.header_message {
        Some(x) => seq![x],
        None => Seq::<u64>::empty(),
    });
    let u = choose|u: int|
        0 <= u < pod_ids(w.pod_messages@).len() && pod_ids(w.pod_messages@)[u] == m;
    assert(wolf_output_ids(w)[h.len() + u] == m);
}

/// The header id is among the entry's output ids.
pub proof fn lemma_wolf_contains_header(w: WolfMessage)
    requires
        w.header_message is Some,
    ensures
        wolf_output_ids(w).contains(w.header_message->Some_0),
{
    assert(wolf_output_ids(w)[0] == w.header_message->Some_0);
}

/// A pod list whose detail messages are each kept, taken down, or newly
/// set to `extra` shows only old ids and `extra`.
pub proof fn lemma_pod_ids_pointwise_bound(a: Seq<PodMessage>, b: Seq<PodMessage>, extra: u64)
    requires
        a.len() == b.len(),
        forall|k: int|
            0 <= k < a.len() ==> (#[trigger] b[k].message == a[k].message || b[k].message is None
                || b[k].message == Some(extra)),
    ensures
        forall|id: u64| #[trigger] pod_ids(b).contains(id) ==> pod_ids(a).contains(id) || id
            == extra,
    decreases a.len(),
{
    if a.len() > 0 {
        let a1 = a.drop_last();
        let b1 = b.drop_last();
        lemma_pod_ids_pointwise_bound(a1, b1, extra);
        assert forall|id: u64| #[trigger] pod_ids(b).contains(id) implies pod_ids(a).contains(id)
            || id == extra by {
            let t = choose|t: int| 0 <= t < pod_ids(b).len() && pod_ids(b)[t] == id;
            if t < pod_ids(b1).len() {
                assert(pod_ids(b1)[t] == id);
                assert(pod_ids(b1).contains(id));
                if pod_ids(a1).contains(id) {
                    let u = choose|u: int| 0 <= u < pod_ids(a1).len() && pod_ids(a1)[u] == id;
                    assert(pod_ids(a)[u] == id);
                }
            } else {
                assert(b.last().message == Some(id));
                if a.last().message == Some(id) {
                    assert(pod_ids(a)[pod_ids(a1).len() as int] == id);
                }
            }
        }
    }
}

/// How a fresh query entry is announced to the channel.
pub enum AnnouncePlan {
    /// The header message to send.
    Header(MessageSpec),
    /// The report of the upstream failure; no header is sent.
    UpstreamError(MessageSpec),
}

/// Whether `m` reports the upstream failure `(msg, code)` to the author
/// of `w`'s input message.
pub open spec fn matches_upstream_error(
    m: MessageSpec,
    w: WolfMessage,
    msg: String,
    code: u32,
) -> bool {
    &&& m.embed matches Some(e) && {
        &&& e.title@ == "Error"@
        &&& e.description@ == error_description(Error::WolfError(msg, code))
        &&& e.image is None
        &&& e.fields@.len() == 0
        &&& e.footer matches Some(f) && f.icon_url@ == w.inp_message.author.icon_url@ && f.text@
            == requested_by_text(
            w.inp_message.author.name@,
            w.inp_message.author.discriminator as nat,
        )
    }
    &&& m.content is None
    &&& m.attachment is None
    &&& m.button_rows@.len() == 0
    &&& m.menu is None
}

impl WolfMessage {
    /// Plans how this fresh entry is announced: when the upstream
    /// service reported a failure, its message and code are shown to
    /// the user and no header is sent; otherwise the header message is
    /// planned.
    pub fn announce(&self) -> (r: AnnouncePlan)
        ensures
            match r {
                AnnouncePlan::Header(m) => self.result.error is None && matches_header_message(
                    m,
                    *self,
                ),
                AnnouncePlan::UpstreamError(m) => self.result.error matches Some(e)
                    && matches_upstream_error(m, *self, e.0, e.1),
            },
    {
        match &self.result.error {
            Some((msg, code)) => {
                let e = Error::WolfError(msg.clone(), *code);
                let m = err_msg(Some(&self.inp_message.author), &e);
                proof {
                    let stored = self.result.error->Some_0;
                    assert(error_text(e) =~= error_text(Error::WolfError(stored.0, stored.1)));
                }
                AnnouncePlan::UpstreamError(m)
            },
            None => AnnouncePlan::Header(self.compose_header_message()),
        }
    }
}

/// The command word of the query command.
pub open spec fn wolfram_word() -> Seq<char> {
    seq!['w', 'o', 'l', 'f', 'r', 'a', 'm']
}

/// The one-letter alias of the query command.
pub open spec fn w_word() -> Seq<char> {
    seq!['w']
}

/// The query command word as characters.
pub fn wolfram_word_chars() -> (v: Vec<char>)
    ensures
        v@ == wolfram_word(),
{
    let v = vec!['w', 'o', 'l', 'f', 'r', 'a', 'm'];
    proof {
        assert(v@ =~= wolfram_word());
    }
    v
}

/// The query alias word as characters.
pub fn w_word_chars() -> (v: Vec<char>)
    ensures
        v@ == w_word(),
{
    let v = vec!['w'];
    proof {
        assert(v@ =~= w_word());
    }
    v
}

/// Reads an edited message against the query edit patterns: the full
/// command word first, then its alias. The matching pattern yields the
/// new query text.
pub fn classify_wolfram_edit(prefix: &str, content: &str) -> (r: Option<(CmdType, String)>)
    ensures
        match r {
            Some((c, a)) => c == CmdType::Wolfram && if edit_cmd_match(
                prefix@,
                wolfram_word(),
                content@,
            ) {
                a@ == edit_cmd_args(prefix@, wolfram_word(), content@)
            } else {
                edit_cmd_match(prefix@, w_word(), content@) && a@ == edit_cmd_args(
                    prefix@,
                    w_word(),
                    content@,
                )
            },
            None => !edit_cmd_match(prefix@, wolfram_word(), content@) && !edit_cmd_match(
                prefix@,
                w_word(),
                content@,
            ),
        },
{
    let wolfram = wolfram_word_chars();
    if let Some(a) = edit_match(prefix, &wolfram, content) {
        return Some((CmdType::Wolfram, a));
    }
    let w = w_word_chars();
    if let Some(a) = edit_match(prefix, &w, content) {
        return Some((CmdType::Wolfram, a));
    }
    None
}

} // verus!
