//! The inbound chat request: its validation and the construction of the
//! two upstream prompts.

use vstd::prelude::*;

verus! {

use vstd::string::StringSliceAdditionalSpecFns;
use crate::bytes::{lit, trim, trim_spec, subvec, push_all};
use crate::engine::{Mode, sentinel, sentinel_spec};

/// Who speaks a message.
#[derive(Clone, Copy, Debug, PartialEq, Eq, Structural)]
pub enum Role {
    User,
    Assistant,
    System,
}

/// One conversation message.
pub struct Message {
    pub role: Role,
    pub content: Vec<u8>,
}

/// Mathematical image of a `Message`.
pub struct MessageModel {
    pub role: Role,
    pub content: Seq<u8>,
}

impl View for Message {
    type V = MessageModel;

    open spec fn view(&self) -> MessageModel {
        MessageModel { role: self.role, content: self.content@ }
    }
}

pub open spec fn msgs_model(s: Seq<Message>) -> Seq<MessageModel> {
    s.map_values(|m: Message| m@)
}

/// Caller-supplied per-provider overrides: body fields as raw JSON text
/// by key, and extra headers.
pub struct ProviderConfig {
    pub body: Vec<(Vec<u8>, Vec<u8>)>,
    pub headers: Vec<(Vec<u8>, Vec<u8>)>,
}

impl ProviderConfig {
    pub fn empty() -> (r: ProviderConfig)
        ensures
            r.body@.len() == 0,
            r.headers@.len() == 0,
    {
        ProviderConfig { body: Vec::new(), headers: Vec::new() }
    }
}

/// The parsed chat request the handler works on.
pub struct ChatRequest {
    pub messages: Vec<Message>,
    pub stream: bool,
    pub system: Option<Vec<u8>>,
    pub verbose: bool,
    pub deepseek_config: ProviderConfig,
    pub anthropic_config: ProviderConfig,
}

/// Number of system-role entries in a message sequence.
pub open spec fn system_count(ms: Seq<MessageModel>) -> nat
    decreases ms.len(),
{
    if ms.len() == 0 {
        0
    } else {
        system_count(ms.drop_last()) + (if ms.last().role == Role::System {
            1nat
        } else {
            0nat
        })
    }
}

/// The request carries at most one system prompt, top-level or inline.
pub open spec fn valid_system_model(ms: Seq<MessageModel>, system: Option<Seq<u8>>) -> bool {
    (if system is Some {
        1nat
    } else {
        0nat
    }) + system_count(ms) <= 1
}

/// Why a request is turned away, or that it is not.
#[derive(Clone, Copy, Debug, PartialEq, Eq, Structural)]
pub enum ValidationOutcome {
    Accepted,
    /// The request carries no messages.
    EmptyMessages,
    /// More than one system prompt, top-level or inline.
    InvalidSystemPrompt,
    /// The conversation ends on an assistant message with no content.
    EmptyFinalAssistant,
}

pub open spec fn validate_model(ms: Seq<MessageModel>, system: Option<Seq<u8>>) -> ValidationOutcome {
    if ms.len() == 0 {
        ValidationOutcome::EmptyMessages
    } else if !valid_system_model(ms, system) {
        ValidationOutcome::InvalidSystemPrompt
    } else if ms.last().role == Role::Assistant && trim_spec(ms.last().content).len() == 0 {
        ValidationOutcome::EmptyFinalAssistant
    } else {
        ValidationOutcome::Accepted
    }
}

impl ChatRequest {
    pub open spec fn messages_model(&self) -> Seq<MessageModel> {
        msgs_model(self.messages@)
    }

    pub open spec fn system_model(&self) -> Option<Seq<u8>> {
        match self.system {
            Some(ref s) => Some(s@),
            None => None,
        }
    }

    /// True when at most one system prompt is present in total.
    pub fn validate_system_prompt(&self) -> (r: bool)
        ensures
            r == valid_system_model(self.messages_model(), self.system_model()),
    {
        let ghost top: nat = if self.system_model() is Some {
            1nat
        } else {
            0nat
        };
        let mut count: u64 = if self.system.is_some() {
            1
        } else {
            0
        };
        let mut i: usize = 0;
        while i < self.messages.len()
            invariant
                0 <= i <= self.messages@.len(),
                count <= 2,
                count == (if top + system_count(self.messages_model().take(i as int)) <= 2 {
                    top + system_count(self.messages_model().take(i as int))
                } else {
                    2nat
                }),
            decreases self.messages@.len() - i,
        {
            let ghost pre = self.messages_model().take(i as int);
            if matches!(self.messages[i].role, Role::System) {
                if count < 2 {
                    count = count + 1;
                }
            }
            proof {
                let post = self.messages_model().take(i as int + 1);
                assert(post.drop_last() =~= pre);
                assert(post.last() == self.messages_model()[i as int]);
            }
            i += 1;
        }
        proof {
            assert(self.messages_model().take(self.messages@.len() as int) =~= self.messages_model());
        }
        count <= 1
    }

    /// Classifies the request exactly: empty conversations, duplicated
    /// system prompts, and an empty trailing assistant slot are refused.
    pub fn validate(&self) -> (r: ValidationOutcome)
        ensures
            r == validate_model(self.messages_model(), self.system_model()),
    {
        if self.messages.len() == 0 {
            return ValidationOutcome::EmptyMessages;
        }
        if !self.validate_system_prompt() {
            return ValidationOutcome::InvalidSystemPrompt;
        }
        let last = &self.messages[self.messages.len() - 1];
        proof {
            assert(self.messages_model().last() == self.messages@[self.messages@.len() - 1]@);
        }
        if matches!(last.role, Role::Assistant) {
            let t = trim(&last.content);
            if t.len() == 0 {
                return ValidationOutcome::EmptyFinalAssistant;
            }
        }
        ValidationOutcome::Accepted
    }

    /// The caller's system prompt: the top-level one, or the first
    /// inline system message.
    pub fn get_system_prompt(&self) -> (r: Option<Vec<u8>>)
        ensures
            match r {
                Some(s) => Some(s@) == system_prompt_model(
                    self.messages_model(),
                    self.system_model(),
                ),
                None => system_prompt_model(self.messages_model(), self.system_model()) is None,
            },
    {
        if let Some(s) = &self.system {
            let copy = subvec(s, 0, s.len());
            proof {
                assert(s@.subrange(0, s@.len() as int) =~= s@);
            }
            return Some(copy);
        }
        let mut i: usize = 0;
        while i < self.messages.len()
            invariant
                0 <= i <= self.messages@.len(),
                self.system_model() is None,
                forall|j: int|
                    0 <= j < i ==> (#[trigger] self.messages_model()[j]).role != Role::System,
            decreases self.messages@.len() - i,
        {
            if matches!(self.messages[i].role, Role::System) {
                let c = &self.messages[i].content;
                let copy = subvec(c, 0, c.len());
                proof {
                    assert(c@.subrange(0, c@.len() as int) =~= c@);
                    lemma_first_system(self.messages_model(), i as int);
                }
                return Some(copy);
            }
            i += 1;
        }
        proof {
            lemma_no_system(self.messages_model());
        }
        None
    }

    /// The messages handed to the reasoning upstream: the top-level
    /// system prompt (when given) followed by the non-system messages.
    pub fn reasoning_messages(&self) -> (r: Vec<Message>)
        ensures
            msgs_model(r@) == reasoning_messages_model(self.messages_model(), self.system_model()),
    {
        let mut r: Vec<Message> = Vec::new();
        if let Some(s) = &self.system {
            let copy = subvec(s, 0, s.len());
            proof {
                assert(s@.subrange(0, s@.len() as int) =~= s@);
            }
            r.push(Message { role: Role::System, content: copy });
        }
        let ghost head = msgs_model(r@);
        proof {
            match self.system_model() {
                Some(s) => {
                    assert(head =~= seq![MessageModel { role: Role::System, content: s }]);
                },
                None => {
                    assert(head =~= Seq::<MessageModel>::empty());
                },
            }
        }
        let mut i: usize = 0;
        while i < self.messages.len()
            invariant
                0 <= i <= self.messages@.len(),
                msgs_model(r@) == head + non_system(self.messages_model().take(i as int)),
            decreases self.messages@.len() - i,
        {
            let ghost pre = self.messages_model().take(i as int);
            let m = &self.messages[i];
            if !matches!(m.role, Role::System) {
                let copy = subvec(&m.content, 0, m.content.len());
                proof {
                    assert(m.content@.subrange(0, m.content@.len() as int) =~= m.content@);
                }
                let ghost r_pre = msgs_model(r@);
                r.push(Message { role: m.role, content: copy });
                proof {
                    assert(msgs_model(r@) =~= r_pre.push(self.messages_model()[i as int]));
                }
            }
            proof {
                let post = self.messages_model().take(i as int + 1);
                assert(post.drop_last() =~= pre);
                assert(post.last() == self.messages_model()[i as int]);
                if self.messages_model()[i as int].role != Role::System {
                    assert(head + non_system(post) =~= (head + non_system(pre)).push(
                        self.messages_model()[i as int],
                    ));
                } else {
                    assert(head + non_system(post) =~= head + non_system(pre));
                }
            }
            i += 1;
        }
        proof {
            assert(self.messages_model().take(self.messages@.len() as int) =~= self.messages_model());
        }
        r
    }
}

/// The messages without their system entries, order kept.
pub open spec fn non_system(ms: Seq<MessageModel>) -> Seq<MessageModel>
    decreases ms.len(),
{
    if ms.len() == 0 {
        Seq::empty()
    } else {
        non_system(ms.drop_last()) + (if ms.last().role != Role::System {
            seq![ms.last()]
        } else {
            Seq::<MessageModel>::empty()
        })
    }
}

pub open spec fn reasoning_messages_model(ms: Seq<MessageModel>, system: Option<Seq<u8>>) -> Seq<
    MessageModel,
> {
    (match system {
        Some(s) => seq![MessageModel { role: Role::System, content: s }],
        None => Seq::<MessageModel>::empty(),
    }) + non_system(ms)
}

/// The caller's system prompt: top-level first, else the first inline
/// system message.
pub open spec fn system_prompt_model(ms: Seq<MessageModel>, system: Option<Seq<u8>>) -> Option<
    Seq<u8>,
> {
    match system {
        Some(s) => Some(s),
        None => first_system(ms),
    }
}

pub open spec fn first_system(ms: Seq<MessageModel>) -> Option<Seq<u8>>
    decreases ms.len(),
{
    if ms.len() == 0 {
        None
    } else if ms[0].role == Role::System {
        Some(ms[0].content)
    } else {
        first_system(ms.drop_first())
    }
}

proof fn lemma_first_system(ms: Seq<MessageModel>, i: int)
    requires
        0 <= i < ms.len(),
        ms[i].role == Role::System,
        forall|j: int| 0 <= j < i ==> (#[trigger] ms[j]).role != Role::System,
    ensures
        first_system(ms) == Some(ms[i].content),
    decreases i,
{
    if i == 0 {
    } else {
        assert(ms[0].role != Role::System);
        assert forall|j: int| 0 <= j < i - 1 implies (#[trigger] ms.drop_first()[j]).role
            != Role::System by {
            assert(ms.drop_first()[j] == ms[j + 1]);
        }
        assert(ms.drop_first()[i - 1] == ms[i]);
        lemma_first_system(ms.drop_first(), i - 1);
    }
}

proof fn lemma_no_system(ms: Seq<MessageModel>)
    requires
        forall|j: int| 0 <= j < ms.len() ==> (#[trigger] ms[j]).role != Role::System,
    ensures
        first_system(ms) is None,
    decreases ms.len(),
{
    if ms.len() > 0 {
        assert forall|j: int| 0 <= j < ms.drop_first().len() implies (
        #[trigger] ms.drop_first()[j]).role != Role::System by {
            assert(ms.drop_first()[j] == ms[j + 1]);
        }
        lemma_no_system(ms.drop_first());
    }
}

/// The synthetic assistant message carrying reasoning context into the
/// Answer phase, when one is owed.
pub open spec fn thinking_message_model(mode: Mode, reasoning: Seq<u8>, normal: Seq<u8>) -> Option<
    Seq<u8>,
> {
    if mode == Mode::Normal && trim_spec(reasoning).len() > 0 {
        Some("<thinking>\n".spec_bytes() + reasoning + "</thinking>".spec_bytes())
    } else if mode == Mode::Full && trim_spec(normal).len() > 0 {
        Some(
            "<thinking>\n".spec_bytes() + sentinel_spec() + trim_spec(normal)
                + "</thinking>".spec_bytes(),
        )
    } else {
        None
    }
}

/// The Answer-phase prompt: the reasoning-phase messages followed by the
/// synthetic thinking message, when one is owed.
pub open spec fn answer_messages_model(
    base: Seq<MessageModel>,
    mode: Mode,
    reasoning: Seq<u8>,
    normal: Seq<u8>,
) -> Seq<MessageModel> {
    match thinking_message_model(mode, reasoning, normal) {
        Some(c) => base.push(MessageModel { role: Role::Assistant, content: c }),
        None => base,
    }
}

/// Builds the Answer-phase messages from the request's messages and the
/// engine's buffers.
pub fn answer_messages(base: Vec<Message>, mode: Mode, reasoning_buf: &Vec<u8>, normal_buf: &Vec<
    u8,
>) -> (r: Vec<Message>)
    ensures
        msgs_model(r@) == answer_messages_model(
            msgs_model(base@),
            mode,
            reasoning_buf@,
            normal_buf@,
        ),
{
    let mut r = base;
    let open_tag = lit("<thinking>\n");
    let close_tag = lit("</thinking>");
    match mode {
        Mode::Normal => {
            let t = trim(reasoning_buf);
            if t.len() > 0 {
                let mut c: Vec<u8> = Vec::new();
                push_all(&mut c, &open_tag);
                push_all(&mut c, reasoning_buf);
                push_all(&mut c, &close_tag);
                let ghost r_pre = msgs_model(r@);
                r.push(Message { role: Role::Assistant, content: c });
                proof {
                    assert(msgs_model(r@) =~= r_pre.push(
                        MessageModel {
                            role: Role::Assistant,
                            content: "<thinking>\n".spec_bytes() + reasoning_buf@
                                + "</thinking>".spec_bytes(),
                        },
                    ));
                }
            }
        },
        Mode::Full => {
            let t = trim(normal_buf);
            if t.len() > 0 {
                let sent = sentinel();
                let mut c: Vec<u8> = Vec::new();
                push_all(&mut c, &open_tag);
                push_all(&mut c, &sent);
                push_all(&mut c, &t);
                push_all(&mut c, &close_tag);
                let ghost r_pre = msgs_model(r@);
                r.push(Message { role: Role::Assistant, content: c });
                proof {
                    assert(msgs_model(r@) =~= r_pre.push(
                        MessageModel {
                            role: Role::Assistant,
                            content: "<thinking>\n".spec_bytes() + sentinel_spec() + trim_spec(
                                normal_buf@,
                            ) + "</thinking>".spec_bytes(),
                        },
                    ));
                }
            }
        },
    }
    r
}

/// The fixed Answer-phase developer directive used in `Full` mode.
pub open spec fn directive_spec() -> Seq<u8> {
    "Act as an expert software developer who edits source code.\nYou are diligent and tireless!\nYou NEVER leave comments describing code without implementing it!\nYou always COMPLETELY IMPLEMENT the needed code!\nDescribe each change with a *SEARCH/REPLACE block* per the examples below.\nAll changes to files must use this *SEARCH/REPLACE block* format.\nONLY EVER RETURN CODE IN A *SEARCH/REPLACE BLOCK*!\nAlways reply to the user in chinese.".spec_bytes()
}

pub open spec fn answer_system_model(mode: Mode, user: Option<Seq<u8>>) -> Option<Seq<u8>> {
    match mode {
        Mode::Normal => user,
        Mode::Full => Some(
            match user {
                Some(u) => directive_spec() + "\n\n".spec_bytes() + u,
                None => directive_spec(),
            },
        ),
    }
}

/// The Answer-phase system prompt: the caller's own in `Normal` mode;
/// in `Full` mode the fixed directive, with the caller's appended after
/// a blank line.
pub fn answer_system(mode: Mode, user: Option<Vec<u8>>) -> (r: Option<Vec<u8>>)
    ensures
        match r {
            Some(s) => answer_system_model(
                mode,
                match user {
                    Some(u) => Some(u@),
                    None => None,
                },
            ) == Some(s@),
            None => answer_system_model(
                mode,
                match user {
                    Some(u) => Some(u@),
                    None => None,
                },
            ) is None,
        },
{
    match mode {
        Mode::Normal => user,
        Mode::Full => {
            let directive = lit(
                "Act as an expert software developer who edits source code.\nYou are diligent and tireless!\nYou NEVER leave comments describing code without implementing it!\nYou always COMPLETELY IMPLEMENT the needed code!\nDescribe each change with a *SEARCH/REPLACE block* per the examples below.\nAll changes to files must use this *SEARCH/REPLACE block* format.\nONLY EVER RETURN CODE IN A *SEARCH/REPLACE BLOCK*!\nAlways reply to the user in chinese.",
            );
            match user {
                Some(u) => {
                    let mut s = directive;
                    let sep = lit("\n\n");
                    push_all(&mut s, &sep);
                    push_all(&mut s, &u);
                    Some(s)
                },
                None => Some(directive),
            }
        },
    }
}

} // verus!
