//! Decision logic of the HTTP ingress routes. The chat-completions route is
//! a side-channel interception point: gated by a runtime toggle, it extracts
//! the last user message's text from a request, rewrites it through the rule
//! engine, and hands it to the outbound notification — while the HTTP
//! response is always "not found". The listener's last bind error is kept in
//! a queryable slot.

use vstd::prelude::*;

verus! {

use crate::replace::apply_rules_spec;
use crate::replace::ReplacementEngine;
use crate::replace::RuleModel;
use crate::text::is_blank;
use crate::text::trim_spec;
use crate::text::trim_str;
use vstd::string::StrSliceExecFns;

/// One part of a structured message content list; only its text matters.
pub struct OpenAIContentPart {
    pub text: Option<String>,
}

/// Message content in the chat-completions wire format: either a plain
/// string or a list of parts.
pub enum OpenAIContent {
    Text(String),
    Parts(Vec<OpenAIContentPart>),
}

/// One chat message: a role and its content.
pub struct OpenAIMessage {
    pub role: String,
    pub content: OpenAIContent,
}

/// A chat-completions request: the message list.
pub struct OpenAIChatCompletionRequest {
    pub messages: Vec<OpenAIMessage>,
}

impl Default for OpenAIContent {
    /// A message with no content field carries the empty plain string.
    fn default() -> (r: OpenAIContent)
        ensures
            r matches OpenAIContent::Text(t) && t@ == Seq::<char>::empty(),
    {
        OpenAIContent::Text(String::new())
    }
}

/// The text of the first part, from index `i` on, whose text is present and
/// not blank.
pub open spec fn first_part_text_from(parts: Seq<OpenAIContentPart>, i: int) -> Option<Seq<char>>
    decreases parts.len() - i,
{
    if i < 0 || i >= parts.len() {
        Option::None
    } else {
        match parts[i].text {
            Option::Some(t) => {
                if !is_blank(t@) {
                    Option::Some(t@)
                } else {
                    first_part_text_from(parts, i + 1)
                }
            },
            Option::None => first_part_text_from(parts, i + 1),
        }
    }
}

/// The text a message content resolves to: the plain string itself, or the
/// first non-blank text part of a structured list.
pub open spec fn extract_content_spec(content: OpenAIContent) -> Option<Seq<char>> {
    match content {
        OpenAIContent::Text(t) => Option::Some(t@),
        OpenAIContent::Parts(parts) => first_part_text_from(parts@, 0),
    }
}

/// Resolves a message content to its text, if any.
pub fn extract_content_text(content: &OpenAIContent) -> (r: Option<String>)
    ensures
        r.deep_view() == extract_content_spec(*content),
{
    match content {
        OpenAIContent::Text(t) => Option::Some(t.clone()),
        OpenAIContent::Parts(parts) => {
            proof {
                assert(extract_content_spec(*content) == first_part_text_from(parts@, 0));
            }
            let n = parts.len();
            let mut i: usize = 0;
            while i < n
                invariant
                    n == parts@.len(),
                    i <= n,
                    extract_content_spec(*content) == first_part_text_from(parts@, 0),
                    first_part_text_from(parts@, i as int) == first_part_text_from(parts@, 0),
                decreases n - i,
            {
                match &parts[i].text {
                    Option::Some(t) => {
                        if !crate::text::str_is_blank(t.as_str()) {
                            let r = Option::Some(t.clone());
                            proof {
                                assert(first_part_text_from(parts@, i as int) == Option::Some(
                                    t@,
                                ));
                                assert(r.deep_view() == Option::<Seq<char>>::Some(t@));
                            }
                            return r;
                        }
                    },
                    Option::None => {},
                }
                i += 1;
            }
            Option::None
        },
    }
}

/// The lower-case form of an ASCII upper-case letter; other characters pass
/// through.
pub open spec fn ascii_lower_char(c: char) -> char {
    if 'A' as u32 <= c as u32 && c as u32 <= 'Z' as u32 {
        (c as u32 + 32) as char
    } else {
        c
    }
}

/// Whether a role string equals "user" up to ASCII case.
pub open spec fn is_user_role(role: Seq<char>) -> bool {
    role.len() == 4 && ascii_lower_char(role[0]) == 'u' && ascii_lower_char(role[1]) == 's'
        && ascii_lower_char(role[2]) == 'e' && ascii_lower_char(role[3]) == 'r'
}

/// Whether `role` is the user role, compared ASCII-case-insensitively.
pub fn role_is_user(role: &str) -> (r: bool)
    ensures
        r == is_user_role(role@),
{
    if role.unicode_len() != 4 {
        return false;
    }
    let c0 = role.get_char(0);
    let c1 = role.get_char(1);
    let c2 = role.get_char(2);
    let c3 = role.get_char(3);
    (c0 == 'u' || c0 == 'U') && (c1 == 's' || c1 == 'S') && (c2 == 'e' || c2 == 'E') && (c3 == 'r'
        || c3 == 'R')
}

/// The index of the last message whose role is the user role, if any.
pub open spec fn last_user_index(messages: Seq<OpenAIMessage>) -> Option<int>
    decreases messages.len(),
{
    if messages.len() == 0 {
        Option::None
    } else if is_user_role(messages.last().role@) {
        Option::Some(messages.len() - 1)
    } else {
        last_user_index(messages.drop_last())
    }
}

/// The text the request carries: the last user message's resolved content,
/// trimmed — or nothing when there is no user message, its content has no
/// text, or the text is blank.
pub open spec fn user_text_spec(messages: Seq<OpenAIMessage>) -> Option<Seq<char>> {
    match last_user_index(messages) {
        Option::None => Option::None,
        Option::Some(i) => match extract_content_spec(messages[i].content) {
            Option::None => Option::None,
            Option::Some(t) => {
                let trimmed = trim_spec(t);
                if trimmed.len() == 0 {
                    Option::None
                } else {
                    Option::Some(trimmed)
                }
            },
        },
    }
}

/// Extracts the trimmed text of the last user message, if the request has
/// one and it is non-empty.
pub fn extract_user_text(messages: &Vec<OpenAIMessage>) -> (r: Option<String>)
    ensures
        r.deep_view() == user_text_spec(messages@),
{
    let n = messages.len();
    let mut i: usize = n;
    proof {
        assert(messages@.subrange(0, n as int) =~= messages@);
    }
    while i > 0
        invariant
            n == messages@.len(),
            i <= n,
            last_user_index(messages@) == last_user_index(messages@.subrange(0, i as int)),
        decreases i,
    {
        proof {
            assert(messages@.subrange(0, i as int).drop_last() =~= messages@.subrange(
                0,
                i as int - 1,
            ));
            assert(messages@.subrange(0, i as int).last() == messages@[i as int - 1]);
        }
        if role_is_user(messages[i - 1].role.as_str()) {
            let text = match extract_content_text(&messages[i - 1].content) {
                Option::Some(t) => t,
                Option::None => {
                    return Option::None;
                },
            };
            let trimmed = trim_str(text.as_str());
            if trimmed.as_str().is_empty() {
                return Option::None;
            }
            return Option::Some(trimmed);
        }
        i -= 1;
    }
    proof {
        assert(messages@.subrange(0, 0) =~= Seq::<OpenAIMessage>::empty());
    }
    Option::None
}

/// What the chat-completions route forwards to the outbound notification:
/// nothing while the toggle is off or the request carries no user text, and
/// the rewritten user text otherwise. The HTTP response is "not found"
/// either way.
pub open spec fn chat_route_spec(
    enabled: bool,
    messages: Seq<OpenAIMessage>,
    rules: Seq<RuleModel>,
) -> Option<Seq<char>> {
    if !enabled {
        Option::None
    } else {
        match user_text_spec(messages) {
            Option::None => Option::None,
            Option::Some(t) => Option::Some(apply_rules_spec(rules, t)),
        }
    }
}

/// With the toggle off, the chat-completions route never forwards anything,
/// whatever the request holds.
pub proof fn lemma_chat_route_disabled(messages: Seq<OpenAIMessage>, rules: Seq<RuleModel>)
    ensures
        chat_route_spec(false, messages, rules) is None,
{
}

/// Decides what the chat-completions route emits for a request: with the
/// compatibility toggle off, nothing, without inspecting the body; with it
/// on, the last user message's trimmed text rewritten by the installed
/// rules, when the request carries one.
pub fn chat_completions_text(
    enabled: bool,
    engine: &ReplacementEngine,
    request: &OpenAIChatCompletionRequest,
) -> (r: Option<String>)
    ensures
        r.deep_view() == chat_route_spec(enabled, request.messages@, engine.models()),
{
    if !enabled {
        return Option::None;
    }
    match extract_user_text(&request.messages) {
        Option::Some(text) => Option::Some(engine.apply_text_replacements(text.as_str())),
        Option::None => Option::None,
    }
}

/// The payload describing a failed bind of the HTTP listener.
pub struct HttpServerErrorPayload {
    pub port: u16,
    pub message: String,
}

impl HttpServerErrorPayload {
    /// The payload's content as mathematical values.
    pub open spec fn model(&self) -> (u16, Seq<char>) {
        (self.port, self.message@)
    }
}

/// Runtime state of the HTTP ingress: the compatibility-route toggle and
/// the queryable last bind error.
pub struct HttpServerState {
    openai_compatible_input: bool,
    last_error: Option<HttpServerErrorPayload>,
}

impl HttpServerState {
    /// Whether the chat-completions route is enabled.
    pub closed spec fn openai_enabled(&self) -> bool {
        self.openai_compatible_input
    }

    /// The last recorded bind error, if any.
    pub closed spec fn last_error_model(&self) -> Option<(u16, Seq<char>)> {
        match self.last_error {
            Option::None => Option::None,
            Option::Some(p) => Option::Some(p.model()),
        }
    }

    /// Fresh state: the compatibility route is off and no error is recorded.
    pub fn new() -> (r: HttpServerState)
        ensures
            !r.openai_enabled(),
            r.last_error_model() is None,
    {
        HttpServerState { openai_compatible_input: false, last_error: Option::None }
    }

    /// Whether the chat-completions route is currently enabled.
    pub fn openai_compatible_input(&self) -> (r: bool)
        ensures
            r == self.openai_enabled(),
    {
        self.openai_compatible_input
    }

    /// Turns the chat-completions route on or off; the recorded error is
    /// untouched.
    pub fn set_openai_compatible_input(&mut self, enabled: bool)
        ensures
            final(self).openai_enabled() == enabled,
            final(self).last_error_model() == old(self).last_error_model(),
    {
        self.openai_compatible_input = enabled;
    }

    /// Records a bind failure for `port` and returns the payload to
    /// broadcast to the host.
    pub fn record_http_error(&mut self, port: u16, message: String) -> (r: HttpServerErrorPayload)
        ensures
            final(self).last_error_model() == Option::Some((port, message@)),
            r.model() == (port, message@),
            final(self).openai_enabled() == old(self).openai_enabled(),
    {
        let stored = HttpServerErrorPayload { port, message: message.clone() };
        self.last_error = Option::Some(stored);
        HttpServerErrorPayload { port, message }
    }

    /// The last recorded bind error, as a copy.
    pub fn get_http_server_error(&self) -> (r: Option<HttpServerErrorPayload>)
        ensures
            match r {
                Option::None => self.last_error_model() is None,
                Option::Some(p) => self.last_error_model() == Option::Some(p.model()),
            },
    {
        match &self.last_error {
            Option::None => Option::None,
            Option::Some(p) => Option::Some(
                HttpServerErrorPayload { port: p.port, message: p.message.clone() },
            ),
        }
    }
}

} // verus!
