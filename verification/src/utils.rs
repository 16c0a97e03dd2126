//! Interactive components attached to bot messages: buttons and select
//! menu entries, together with the wire ids they are recognized by.
use vstd::prelude::*;
use vstd::string::StringExecFns;
use crate::text::dec_seq;
use crate::text::digit_run;
use crate::text::digits_val;
use crate::text::parse_digit_run;
use crate::text::to_char_vec;
use crate::text::truncate_with_ellipsis;
use crate::text::truncated;
use crate::text::usize_to_string;

verus! {

/// A control on a bot message. `Pod` carries the pod title (for the
/// label) and the pod index (for the wire id). `Invalid` stands for an
/// unrecognized wire id and is never attached to a message.
pub enum Buttons {
    Delete,
    Next,
    Prev,
    Pod(String, usize),
    Invalid,
}

/// Wire id of the delete control.
pub open spec fn del_id() -> Seq<char> {
    seq!['D', 'E', 'L']
}

/// Wire id of the next-sub-item control.
pub open spec fn nex_id() -> Seq<char> {
    seq!['N', 'E', 'X']
}

/// Wire id of the previous-sub-item control.
pub open spec fn pre_id() -> Seq<char> {
    seq!['P', 'R', 'E']
}

/// Prefix of the wire id of a pod-selector control.
pub open spec fn pod_prefix() -> Seq<char> {
    seq!['P', 'O', 'D']
}

/// The wire id each control is sent and recognized by.
pub open spec fn button_id(b: Buttons) -> Seq<char> {
    match b {
        Buttons::Delete => del_id(),
        Buttons::Next => nex_id(),
        Buttons::Prev => pre_id(),
        Buttons::Pod(_, n) => pod_prefix() + dec_seq(n as nat),
        Buttons::Invalid => Seq::empty(),
    }
}

/// The label shown on each control. A pod label is capped at twenty
/// characters.
pub open spec fn button_label(b: Buttons) -> Seq<char> {
    match b {
        Buttons::Delete => seq!['D', 'e', 'l', 'e', 't', 'e'],
        Buttons::Next => seq!['N', 'e', 'x', 't'],
        Buttons::Prev => seq!['P', 'r', 'e', 'v', 'i', 'o', 'u', 's'],
        Buttons::Pod(s, _) => truncated(s@, 20, 17),
        Buttons::Invalid => Seq::empty(),
    }
}

/// The emoji shown on each control.
pub open spec fn button_emoji(b: Buttons) -> Seq<char> {
    match b {
        Buttons::Delete => seq!['\u{1f5d1}', '\u{fe0f}'],
        Buttons::Next => seq!['\u{27a1}'],
        Buttons::Prev => seq!['\u{2b05}'],
        Buttons::Pod(_, _) => seq!['\u{1f48a}'],
        Buttons::Invalid => seq!['\u{1f6ab}'],
    }
}

/// Whether `s` is the wire id of some pod selector: the pod prefix, then
/// a digit run whose value fits in `usize`.
pub open spec fn is_pod_id(s: Seq<char>) -> bool {
    s.len() >= 4 && s.subrange(0, 3) == pod_prefix() && digit_run(s, 3) > 0 && pod_id_val(s)
        <= usize::MAX as nat
}

/// The pod index encoded by a pod-selector wire id.
pub open spec fn pod_id_val(s: Seq<char>) -> nat {
    digits_val(s.subrange(3, 3 + digit_run(s, 3) as int))
}

impl Buttons {
    /// The wire id this control is sent under.
    pub fn to_id_string(&self) -> (r: String)
        ensures
            r@ == button_id(*self),
    {
        match self {
            Buttons::Delete => {
                proof {
                    reveal_strlit("DEL");
                    assert("DEL"@ =~= del_id());
                }
                "DEL".to_owned()
            },
            Buttons::Next => {
                proof {
                    reveal_strlit("NEX");
                    assert("NEX"@ =~= nex_id());
                }
                "NEX".to_owned()
            },
            Buttons::Prev => {
                proof {
                    reveal_strlit("PRE");
                    assert("PRE"@ =~= pre_id());
                }
                "PRE".to_owned()
            },
            Buttons::Pod(_, n) => {
                proof {
                    reveal_strlit("POD");
                    assert("POD"@ =~= pod_prefix());
                }
                let num = usize_to_string(*n);
                "POD".to_owned().concat(num.as_str())
            },
            Buttons::Invalid => {
                proof {
                    reveal_strlit("");
                    assert(""@ =~= Seq::<char>::empty());
                }
                "".to_owned()
            },
        }
    }

    /// The label this control is shown with.
    pub fn to_string(&self) -> (r: String)
        ensures
            r@ == button_label(*self),
    {
        match self {
            Buttons::Delete => {
                proof {
                    reveal_strlit("Delete");
                    assert("Delete"@ =~= button_label(Buttons::Delete));
                }
                "Delete".to_owned()
            },
            Buttons::Next => {
                proof {
                    reveal_strlit("Next");
                    assert("Next"@ =~= button_label(Buttons::Next));
                }
                "Next".to_owned()
            },
            Buttons::Prev => {
                proof {
                    reveal_strlit("Previous");
                    assert("Previous"@ =~= button_label(Buttons::Prev));
                }
                "Previous".to_owned()
            },
            Buttons::Pod(s, _) => truncate_with_ellipsis(s.as_str(), 20, 17),
            Buttons::Invalid => {
                proof {
                    reveal_strlit("");
                    assert(""@ =~= Seq::<char>::empty());
                }
                "".to_owned()
            },
        }
    }

    /// The emoji this control is shown with.
    pub fn to_emoji(&self) -> (r: String)
        ensures
            r@ == button_emoji(*self),
    {
        match self {
            Buttons::Delete => {
                proof {
                    reveal_strlit("\u{1f5d1}\u{fe0f}");
                    assert("\u{1f5d1}\u{fe0f}"@ =~= button_emoji(Buttons::Delete));
                }
                "\u{1f5d1}\u{fe0f}".to_owned()
            },
            Buttons::Next => {
                proof {
                    reveal_strlit("\u{27a1}");
                    assert("\u{27a1}"@ =~= button_emoji(Buttons::Next));
                }
                "\u{27a1}".to_owned()
            },
            Buttons::Prev => {
                proof {
                    reveal_strlit("\u{2b05}");
                    assert("\u{2b05}"@ =~= button_emoji(Buttons::Prev));
                }
                "\u{2b05}".to_owned()
            },
            Buttons::Pod(_, _) => {
                proof {
                    reveal_strlit("\u{1f48a}");
                    assert("\u{1f48a}"@ =~= button_emoji(*self));
                }
                "\u{1f48a}".to_owned()
            },
            Buttons::Invalid => {
                proof {
                    reveal_strlit("\u{1f6ab}");
                    assert("\u{1f6ab}"@ =~= button_emoji(Buttons::Invalid));
                }
                "\u{1f6ab}".to_owned()
            },
        }
    }

    /// Reads a wire id back into the control it names. Unknown ids, and
    /// pod ids whose index overflows `usize`, give `Invalid`.
    pub fn from_id(s: &str) -> (b: Buttons)
        ensures
            match b {
                Buttons::Pod(label, n) => is_pod_id(s@) && label@ == Seq::<char>::empty() && n
                    as nat == pod_id_val(s@),
                Buttons::Delete => !is_pod_id(s@) && s@ == del_id(),
                Buttons::Next => !is_pod_id(s@) && s@ == nex_id(),
                Buttons::Prev => !is_pod_id(s@) && s@ == pre_id(),
                Buttons::Invalid => !is_pod_id(s@) && s@ != del_id() && s@ != nex_id() && s@
                    != pre_id(),
            },
    {
        let cs = to_char_vec(s);
        if cs.len() >= 4 && cs[0] == 'P' && cs[1] == 'O' && cs[2] == 'D' {
            proof {
                assert(s@.subrange(0, 3) =~= pod_prefix());
            }
            if let Some(n) = parse_digit_run(&cs, 3) {
                return Buttons::Pod(String::new(), n);
            }
            proof {
                assert(s@ != del_id() && s@ != nex_id() && s@ != pre_id());
            }
            return Buttons::Invalid;
        }
        proof {
            if s@.len() >= 4 && s@.subrange(0, 3) == pod_prefix() {
                assert(s@[0] == pod_prefix()[0]);
                assert(s@[1] == pod_prefix()[1]);
                assert(s@[2] == pod_prefix()[2]);
            }
        }
        if cs.len() == 3 && cs[0] == 'D' && cs[1] == 'E' && cs[2] == 'L' {
            proof {
                assert(s@ =~= del_id());
            }
            Buttons::Delete
        } else if cs.len() == 3 && cs[0] == 'N' && cs[1] == 'E' && cs[2] == 'X' {
            proof {
                assert(s@ =~= nex_id());
            }
            Buttons::Next
        } else if cs.len() == 3 && cs[0] == 'P' && cs[1] == 'R' && cs[2] == 'E' {
            proof {
                assert(s@ =~= pre_id());
            }
            Buttons::Prev
        } else {
            proof {
                if s@ == del_id() {
                    assert(s@.len() == 3 && s@[0] == 'D' && s@[1] == 'E' && s@[2] == 'L');
                }
                if s@ == nex_id() {
                    assert(s@.len() == 3 && s@[0] == 'N' && s@[1] == 'E' && s@[2] == 'X');
                }
                if s@ == pre_id() {
                    assert(s@.len() == 3 && s@[0] == 'P' && s@[1] == 'R' && s@[2] == 'E');
                }
            }
            Buttons::Invalid
        }
    }

    /// The plain fields of the rendered control.
    pub fn to_button(&self) -> (b: ButtonSpec)
        ensures
            matches_button(b, *self),
    {
        ButtonSpec {
            label: self.to_string(),
            custom_id: self.to_id_string(),
            emoji: self.to_emoji(),
            disabled: false,
        }
    }

    /// Lays controls out in rows of at most three, in order.
    pub fn add_buttons(vb: Vec<Buttons>) -> (rows: Vec<Vec<ButtonSpec>>)
        ensures
            rows@.len() == (vb@.len() + 2) / 3,
            forall|r: int|
                0 <= r < rows@.len() ==> #[trigger] rows@[r].len() == if vb@.len() - 3 * r < 3 {
                    vb@.len() - 3 * r
                } else {
                    3
                },
            forall|r: int, k: int|
                0 <= r < rows@.len() && 0 <= k < rows@[r].len() ==> matches_button(
                    #[trigger] rows@[r][k],
                    vb@[3 * r + k],
                ),
    {
        let n = vb.len();
        let mut rows: Vec<Vec<ButtonSpec>> = Vec::new();
        let mut i: usize = 0;
        while i < n
            invariant
                n == vb@.len(),
                i <= n,
                i == 3 * rows@.len() || (i == n && n == 3 * (rows@.len() - 1) + rows@[rows@.len()
                    - 1].len() && 0 < rows@[rows@.len() - 1].len() < 3),
                forall|r: int|
                    0 <= r < rows@.len() ==> #[trigger] rows@[r].len() == if n - 3 * r < 3 {
                        n - 3 * r
                    } else {
                        3
                    },
                forall|r: int, k: int|
                    0 <= r < rows@.len() && 0 <= k < rows@[r].len() ==> matches_button(
                        #[trigger] rows@[r][k],
                        vb@[3 * r + k],
                    ),
            decreases n - i,
        {
            let mut row: Vec<ButtonSpec> = Vec::new();
            let start = i;
            while i < n && i < start + 3
                invariant
                    n == vb@.len(),
                    start <= i <= n,
                    i <= start + 3,
                    start == 3 * rows@.len(),
                    row@.len() == i - start,
                    forall|k: int|
                        0 <= k < row@.len() ==> matches_button(#[trigger] row@[k], vb@[start + k]),
                    forall|r: int|
                        0 <= r < rows@.len() ==> #[trigger] rows@[r].len() == if n - 3 * r < 3 {
                            n - 3 * r
                        } else {
                            3
                        },
                    forall|r: int, k: int|
                        0 <= r < rows@.len() && 0 <= k < rows@[r].len() ==> matches_button(
                            #[trigger] rows@[r][k],
                            vb@[3 * r + k],
                        ),
                decreases n - i,
            {
                row.push(vb[i].to_button());
                i = i + 1;
            }
            rows.push(row);
        }
        proof {
            if i == 3 * rows@.len() {
                assert(rows@.len() == (vb@.len() + 2) / 3);
            } else {
                assert(rows@.len() == (vb@.len() + 2) / 3);
            }
        }
        rows
    }
}

/// Whether the rendered control `bs` is the rendering of `b`.
pub open spec fn matches_button(bs: ButtonSpec, b: Buttons) -> bool {
    &&& bs.label@ == button_label(b)
    &&& bs.custom_id@ == button_id(b)
    &&& bs.emoji@ == button_emoji(b)
    &&& !bs.disabled
}

/// The plain fields a chat client needs to render one button.
pub struct ButtonSpec {
    pub label: String,
    pub custom_id: String,
    pub emoji: String,
    pub disabled: bool,
}

/// One entry of a select menu.
pub struct MenuItem {
    pub label: String,
    pub emoji: Option<String>,
    pub description: String,
    pub value: String,
}

impl MenuItem {
    pub fn new(label: String, emoji: Option<String>, value: String, description: String) -> (m:
        MenuItem)
        ensures
            m.label == label,
            m.emoji == emoji,
            m.value == value,
            m.description == description,
    {
        MenuItem { label, emoji, value, description }
    }
}

} // verus!
