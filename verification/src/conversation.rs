//! Conversations as the turn context sees them: messages with a role and a
//! list of content items, where what matters is whether an item is text, a
//! tool request or a tool response. The turn context goes into the latest
//! message that a user wrote, after the tool responses that open it.
use vstd::prelude::*;
use crate::text::contains_text;
use crate::text::contains;

verus! {

#[derive(Debug, Clone, Copy, PartialEq, Eq, Structural)]
pub enum Role {
    User,
    Assistant,
}

/// Who a message effectively comes from: a user message that carries
/// nothing but tool responses is the tool speaking, not the user.
#[derive(Debug, Clone, Copy, PartialEq, Eq, Structural)]
pub enum EffectiveRole {
    User,
    Assistant,
    Tool,
}

/// A request of the assistant to run a tool.
#[derive(Debug, Clone)]
pub struct ToolRequest {
    pub id: String,
    pub tool_name: String,
}

/// The result of a tool run, answering the request with the same id.
#[derive(Debug, Clone)]
pub struct ToolResponse {
    pub id: String,
    pub output: Vec<String>,
}

#[derive(Debug, Clone)]
pub enum MessageContent {
    Text(String),
    ToolRequest(ToolRequest),
    ToolResponse(ToolResponse),
}

#[derive(Debug, Clone)]
pub struct Message {
    pub role: Role,
    pub content: Vec<MessageContent>,
}

#[derive(Debug, Clone)]
pub struct Conversation {
    messages: Vec<Message>,
}

impl MessageContent {
    /// The text of a text item.
    pub fn as_text(&self) -> (r: Option<&str>)
        ensures
            match self {
                MessageContent::Text(t) => r matches Some(s) && s@ == t@,
                _ => r is None,
            },
    {
        match self {
            MessageContent::Text(t) => Some(t.as_str()),
            _ => None,
        }
    }
}

impl Message {
    pub fn user() -> (m: Message)
        ensures
            m.role == Role::User,
            m.content@.len() == 0,
    {
        Message { role: Role::User, content: Vec::new() }
    }

    pub fn assistant() -> (m: Message)
        ensures
            m.role == Role::Assistant,
            m.content@.len() == 0,
    {
        Message { role: Role::Assistant, content: Vec::new() }
    }

    /// The message with a text item appended.
    pub fn with_text(self, text: &str) -> (m: Message)
        ensures
            m.role == self.role,
            m.content@.len() == self.content@.len() + 1,
            m.content@.take(self.content@.len() as int) == self.content@,
            m.content@.last() matches MessageContent::Text(t) && t@ == text@,
    {
        let mut content = self.content;
        content.push(MessageContent::Text(String::from_str(text)));
        Message { role: self.role, content }
    }

    /// The message with a tool request appended.
    pub fn with_tool_request(self, id: &str, tool_name: &str) -> (m: Message)
        ensures
            m.role == self.role,
            m.content@.len() == self.content@.len() + 1,
            m.content@.take(self.content@.len() as int) == self.content@,
            m.content@.last() matches MessageContent::ToolRequest(r) && r.id@ == id@
                && r.tool_name@ == tool_name@,
    {
        let mut content = self.content;
        content.push(
            MessageContent::ToolRequest(
                ToolRequest { id: String::from_str(id), tool_name: String::from_str(tool_name) },
            ),
        );
        Message { role: self.role, content }
    }

    /// The message with a tool response appended.
    pub fn with_tool_response(self, id: &str, output: Vec<String>) -> (m: Message)
        ensures
            m.role == self.role,
            m.content@.len() == self.content@.len() + 1,
            m.content@.take(self.content@.len() as int) == self.content@,
            m.content@.last() matches MessageContent::ToolResponse(r) && r.id@ == id@ && r.output
                == output,
    {
        let mut content = self.content;
        content.push(MessageContent::ToolResponse(ToolResponse { id: String::from_str(id), output }));
        Message { role: self.role, content }
    }
}

impl Conversation {
    /// A conversation holding the messages as they are, unchecked.
    pub fn new_unvalidated(messages: Vec<Message>) -> (c: Conversation)
        ensures
            c.spec_messages() == messages@,
    {
        Conversation { messages }
    }

    pub fn messages(&self) -> (m: &Vec<Message>)
        ensures
            m@ == self.spec_messages(),
    {
        &self.messages
    }

    pub closed spec fn spec_messages(&self) -> Seq<Message> {
        self.messages@
    }
}

pub open spec fn is_tool_response(c: MessageContent) -> bool {
    c is ToolResponse
}

/// The message consists of tool responses only (and of at least one).
pub open spec fn only_tool_responses(content: Seq<MessageContent>) -> bool {
    content.len() > 0 && forall|i: int| 0 <= i < content.len() ==> is_tool_response(#[trigger] content[i])
}

pub open spec fn spec_effective_role(m: Message) -> EffectiveRole {
    match m.role {
        Role::Assistant => EffectiveRole::Assistant,
        Role::User => if only_tool_responses(m.content@) {
            EffectiveRole::Tool
        } else {
            EffectiveRole::User
        },
    }
}

pub fn effective_role(m: &Message) -> (r: EffectiveRole)
    ensures
        r == spec_effective_role(*m),
{
    match m.role {
        Role::Assistant => EffectiveRole::Assistant,
        Role::User => {
            if m.content.len() == 0 {
                return EffectiveRole::User;
            }
            let mut i: usize = 0;
            while i < m.content.len()
                invariant
                    m.role == Role::User,
                    i <= m.content@.len(),
                    forall|j: int| 0 <= j < i ==> is_tool_response(#[trigger] m.content@[j]),
                decreases m.content@.len() - i,
            {
                match &m.content[i] {
                    MessageContent::ToolResponse(_) => {},
                    _ => {
                        assert(!is_tool_response(m.content@[i as int]));
                        return EffectiveRole::User;
                    },
                }
                i = i + 1;
            }
            EffectiveRole::Tool
        },
    }
}

/// The position of the latest message that effectively comes from the
/// user, or -1 when there is none.
pub open spec fn latest_user_index(messages: Seq<Message>) -> int
    decreases messages.len(),
{
    if messages.len() == 0 {
        -1
    } else if spec_effective_role(messages.last()) == EffectiveRole::User {
        messages.len() - 1
    } else {
        latest_user_index(messages.drop_last())
    }
}

/// How many tool responses open the content.
pub open spec fn leading_tool_responses(content: Seq<MessageContent>) -> nat
    decreases content.len(),
{
    if content.len() > 0 && is_tool_response(content[0]) {
        1 + leading_tool_responses(content.drop_first())
    } else {
        0
    }
}

/// The content with the text placed after the tool responses that open it.
pub open spec fn with_text_after_tool_responses(content: Seq<MessageContent>, text: String) -> Seq<
    MessageContent,
> {
    content.insert(leading_tool_responses(content) as int, MessageContent::Text(text))
}

/// The latest user message is the last message whose effective role is the
/// user; there is none (-1) when no message effectively comes from the user.
pub proof fn lemma_latest_user_index_bounds(messages: Seq<Message>)
    ensures
        -1 <= latest_user_index(messages) < messages.len(),
        latest_user_index(messages) >= 0 ==> spec_effective_role(messages[latest_user_index(messages)])
            == EffectiveRole::User,
        forall|j: int|
            latest_user_index(messages) < j < messages.len() ==> spec_effective_role(
                #[trigger] messages[j],
            ) != EffectiveRole::User,
    decreases messages.len(),
{
    if messages.len() > 0 && spec_effective_role(messages.last()) != EffectiveRole::User {
        lemma_latest_user_index_bounds(messages.drop_last());
        assert forall|j: int| latest_user_index(messages) < j < messages.len() implies spec_effective_role(
            #[trigger] messages[j],
        ) != EffectiveRole::User by {
            if j < messages.len() - 1 {
                assert(messages[j] == messages.drop_last()[j]);
            }
        }
    }
}

proof fn lemma_leading_bound(content: Seq<MessageContent>)
    ensures
        leading_tool_responses(content) <= content.len(),
    decreases content.len(),
{
    if content.len() > 0 && is_tool_response(content[0]) {
        lemma_leading_bound(content.drop_first());
    }
}

proof fn lemma_leading_prefix(content: Seq<MessageContent>, k: int)
    requires
        0 <= k <= content.len(),
        forall|j: int| 0 <= j < k ==> is_tool_response(#[trigger] content[j]),
        k == content.len() || !is_tool_response(content[k]),
    ensures
        leading_tool_responses(content) == k,
    decreases k,
{
    if k > 0 {
        let rest = content.drop_first();
        assert forall|j: int| 0 <= j < k - 1 implies is_tool_response(#[trigger] rest[j]) by {
            assert(rest[j] == content[j + 1]);
        }
        if k < content.len() {
            assert(rest[k - 1] == content[k]);
        }
        lemma_leading_prefix(rest, k - 1);
    }
}

/// The position of the latest message that effectively comes from the user.
pub fn find_latest_user_message(messages: &Vec<Message>) -> (r: Option<usize>)
    ensures
        r is None <==> latest_user_index(messages@) < 0,
        r matches Some(i) ==> i == latest_user_index(messages@),
{
    proof {
        lemma_latest_user_index_bounds(messages@);
    }
    let mut idx = messages.len();
    while idx > 0
        invariant
            idx <= messages@.len(),
            latest_user_index(messages@) < idx,
            -1 <= latest_user_index(messages@) < messages@.len(),
            latest_user_index(messages@) >= 0 ==> spec_effective_role(
                messages@[latest_user_index(messages@)],
            ) == EffectiveRole::User,
            forall|j: int|
                latest_user_index(messages@) < j < messages@.len() ==> spec_effective_role(
                    #[trigger] messages@[j],
                ) != EffectiveRole::User,
        decreases idx,
    {
        let role = effective_role(&messages[idx - 1]);
        if role == EffectiveRole::User {
            return Some(idx - 1);
        }
        idx = idx - 1;
    }
    None
}

/// How many tool responses open the content.
pub fn count_leading_tool_responses(content: &Vec<MessageContent>) -> (k: usize)
    ensures
        k == leading_tool_responses(content@),
{
    let mut k: usize = 0;
    while k < content.len()
        invariant
            k <= content@.len(),
            forall|j: int| 0 <= j < k ==> is_tool_response(#[trigger] content@[j]),
        decreases content@.len() - k,
    {
        match &content[k] {
            MessageContent::ToolResponse(_) => {},
            _ => {
                proof {
                    lemma_leading_prefix(content@, k as int);
                }
                return k;
            },
        }
        k = k + 1;
    }
    proof {
        lemma_leading_prefix(content@, k as int);
    }
    k
}

/// `after` is `before` with the text placed into the latest user message,
/// after the tool responses that open it; every other message, and every
/// other item of that message, is as it was.
pub open spec fn injected(before: Seq<Message>, text: String, after: Seq<Message>) -> bool {
    let i = latest_user_index(before);
    &&& 0 <= i
    &&& after.len() == before.len()
    &&& forall|j: int| 0 <= j < after.len() && j != i ==> #[trigger] after[j] == before[j]
    &&& after[i].role == before[i].role
    &&& after[i].content@ == with_text_after_tool_responses(before[i].content@, text)
}

/// Places the turn context into the latest user message, after the tool
/// responses that open it. Every other message, and every other item of
/// that message, stays as it was. Returns `None` (and drops the messages)
/// when no message effectively comes from the user.
pub fn insert_moim(messages: Vec<Message>, moim: String) -> (r: Option<Vec<Message>>)
    ensures
        latest_user_index(messages@) < 0 <==> r is None,
        r matches Some(v) ==> injected(messages@, moim, v@),
{
    let i = match find_latest_user_message(&messages) {
        None => return None,
        Some(i) => i,
    };
    proof {
        lemma_latest_user_index_bounds(messages@);
    }
    let mut msgs = messages;
    let m = msgs.remove(i);
    let k = count_leading_tool_responses(&m.content);
    proof {
        lemma_leading_bound(m.content@);
    }
    let mut content = m.content;
    content.insert(k, MessageContent::Text(moim));
    msgs.insert(i, Message { role: m.role, content });
    assert forall|j: int| 0 <= j < msgs@.len() && j != i implies #[trigger] msgs@[j] == messages@[j] by {
    }
    assert(injected(messages@, moim, msgs@));
    Some(msgs)
}

/// A repair of the conversation that the turn context may cause and that
/// is harmless: merged neighbours, placeholders for empty tool results,
/// trimmed or dropped trailing assistant text, merged text items.
pub open spec fn is_expected_issue(issue: Seq<char>) -> bool {
    ||| contains_text(issue, "Merged consecutive user messages"@)
    ||| contains_text(issue, "Merged consecutive assistant messages"@)
    ||| contains_text(issue, "Added placeholder to empty tool result"@)
    ||| contains_text(issue, "Trimmed trailing whitespace from assistant message"@)
    ||| contains_text(issue, "Removed trailing assistant message"@)
    ||| contains_text(issue, "Merged text content"@)
}

/// The issues a repair is expected to report are those that say it merged
/// consecutive user messages, merged consecutive assistant messages, added
/// a placeholder to an empty tool result, trimmed trailing whitespace from
/// an assistant message, removed a trailing assistant message or merged
/// text content, wherever in the issue that is said; any other issue is
/// unexpected.
pub proof fn lemma_expected_issues(issue: Seq<char>)
    ensures
        contains_text(issue, "Merged consecutive user messages"@) ==> is_expected_issue(issue),
        contains_text(issue, "Merged consecutive assistant messages"@) ==> is_expected_issue(issue),
        contains_text(issue, "Added placeholder to empty tool result"@) ==> is_expected_issue(issue),
        contains_text(issue, "Trimmed trailing whitespace from assistant message"@) ==> is_expected_issue(
            issue,
        ),
        contains_text(issue, "Removed trailing assistant message"@) ==> is_expected_issue(issue),
        contains_text(issue, "Merged text content"@) ==> is_expected_issue(issue),
        !contains_text(issue, "Merged consecutive user messages"@) && !contains_text(
            issue,
            "Merged consecutive assistant messages"@,
        ) && !contains_text(issue, "Added placeholder to empty tool result"@) && !contains_text(
            issue,
            "Trimmed trailing whitespace from assistant message"@,
        ) && !contains_text(issue, "Removed trailing assistant message"@) && !contains_text(
            issue,
            "Merged text content"@,
        ) ==> !is_expected_issue(issue),
{
}

/// A list of issues holds an unexpected one exactly when one of its issues
/// is not expected.
pub proof fn lemma_unexpected_issue_is_one_of_them(issues: Seq<String>)
    ensures
        (forall|i: int| 0 <= i < issues.len() ==> is_expected_issue(#[trigger] issues[i]@))
            ==> !has_unexpected_issue(issues),
        forall|i: int|
            0 <= i < issues.len() && !is_expected_issue(#[trigger] issues[i]@) ==> has_unexpected_issue(
                issues,
            ),
{
}

pub open spec fn has_unexpected_issue(issues: Seq<String>) -> bool {
    exists|i: int| 0 <= i < issues.len() && !is_expected_issue(#[trigger] issues[i]@)
}

pub fn is_expected(issue: &str) -> (b: bool)
    ensures
        b == is_expected_issue(issue@),
{
    contains(issue, "Merged consecutive user messages") || contains(
        issue,
        "Merged consecutive assistant messages",
    ) || contains(issue, "Added placeholder to empty tool result") || contains(
        issue,
        "Trimmed trailing whitespace from assistant message",
    ) || contains(issue, "Removed trailing assistant message") || contains(
        issue,
        "Merged text content",
    )
}

/// Whether repairing the conversation reported an issue other than the
/// expected ones.
pub fn has_unexpected_issues(issues: &Vec<String>) -> (b: bool)
    ensures
        b == has_unexpected_issue(issues@),
{
    let mut i: usize = 0;
    while i < issues.len()
        invariant
            i <= issues@.len(),
            forall|j: int| 0 <= j < i ==> is_expected_issue(#[trigger] issues@[j]@),
        decreases issues@.len() - i,
    {
        if !is_expected(issues[i].as_str()) {
            return true;
        }
        i = i + 1;
    }
    false
}

proof fn lemma_latest_user_index_is(messages: Seq<Message>, i: int)
    requires
        0 <= i < messages.len(),
        spec_effective_role(messages[i]) == EffectiveRole::User,
        forall|j: int| i < j < messages.len() ==> spec_effective_role(#[trigger] messages[j])
            != EffectiveRole::User,
    ensures
        latest_user_index(messages) == i,
    decreases messages.len(),
{
    if i < messages.len() - 1 {
        let init = messages.drop_last();
        assert(spec_effective_role(messages[messages.len() - 1]) != EffectiveRole::User);
        assert forall|j: int| i < j < init.len() implies spec_effective_role(#[trigger] init[j])
            != EffectiveRole::User by {
            assert(init[j] == messages[j]);
        }
        lemma_latest_user_index_is(init, i);
    }
}

/// An assistant message comes from the assistant; a user message comes
/// from the user unless it holds tool responses and nothing else, in which
/// case it comes from the tool. An empty user message comes from the user.
pub proof fn lemma_effective_roles(m: Message)
    ensures
        m.role == Role::Assistant ==> spec_effective_role(m) == EffectiveRole::Assistant,
        m.role == Role::User && m.content@.len() == 0 ==> spec_effective_role(m) == EffectiveRole::User,
        m.role == Role::User && (exists|i: int|
            0 <= i < m.content@.len() && !(#[trigger] m.content@[i] is ToolResponse))
            ==> spec_effective_role(m) == EffectiveRole::User,
        m.role == Role::User && m.content@.len() > 0 && (forall|i: int|
            0 <= i < m.content@.len() ==> #[trigger] m.content@[i] is ToolResponse)
            ==> spec_effective_role(m) == EffectiveRole::Tool,
{
}

/// The turn context goes right after the tool responses that open the
/// message's content, before anything else; the other items keep their
/// order.
pub proof fn lemma_text_goes_after_tool_responses(content: Seq<MessageContent>, text: String)
    ensures
        ({
            let k = leading_tool_responses(content) as int;
            &&& 0 <= k <= content.len()
            &&& forall|j: int| 0 <= j < k ==> #[trigger] content[j] is ToolResponse
            &&& k < content.len() ==> !(content[k] is ToolResponse)
            &&& with_text_after_tool_responses(content, text) == content.take(k) + seq![
                MessageContent::Text(text),
            ] + content.skip(k)
        }),
{
    let k = leading_tool_responses(content) as int;
    lemma_leading_bound(content);
    lemma_leading_prefix_of(content, k);
    lemma_leading_stops(content);
    assert(with_text_after_tool_responses(content, text) =~= content.take(k) + seq![
        MessageContent::Text(text),
    ] + content.skip(k));
}

proof fn lemma_leading_stops(content: Seq<MessageContent>)
    ensures
        leading_tool_responses(content) < content.len() ==> !is_tool_response(
            content[leading_tool_responses(content) as int],
        ),
    decreases content.len(),
{
    if content.len() > 0 && is_tool_response(content[0]) {
        let rest = content.drop_first();
        lemma_leading_stops(rest);
        if leading_tool_responses(rest) < rest.len() {
            assert(content[leading_tool_responses(content) as int] == rest[leading_tool_responses(
                rest,
            ) as int]);
        }
    }
}

/// Removing the item that the turn context added gives back the content
/// the message had before.
pub proof fn lemma_injection_is_undone_by_removal(content: Seq<MessageContent>, text: String)
    ensures
        with_text_after_tool_responses(content, text).remove(leading_tool_responses(content) as int)
            == content,
{
    lemma_leading_bound(content);
    assert(with_text_after_tool_responses(content, text).remove(leading_tool_responses(content) as int)
        =~= content);
}

/// After the turn context went in, the message that received it is still
/// the latest user message, and the tool responses that open it are still
/// the same: a further turn context lands in the same message, right
/// before the previous one.
pub proof fn lemma_injection_keeps_the_target(before: Seq<Message>, text: String, after: Seq<Message>)
    requires
        injected(before, text, after),
    ensures
        latest_user_index(after) == latest_user_index(before),
        leading_tool_responses(after[latest_user_index(before)].content@) == leading_tool_responses(
            before[latest_user_index(before)].content@,
        ),
{
    let i = latest_user_index(before);
    lemma_latest_user_index_bounds(before);
    let c = before[i].content@;
    let k = leading_tool_responses(c) as int;
    lemma_leading_bound(c);
    let c2 = after[i].content@;
    assert(c2[k] == MessageContent::Text(text));
    assert(!is_tool_response(c2[k]));
    assert(before[i].role == Role::User);
    assert(!only_tool_responses(c2));
    assert(spec_effective_role(after[i]) == EffectiveRole::User);
    assert forall|j: int| i < j < after.len() implies spec_effective_role(#[trigger] after[j])
        != EffectiveRole::User by {
        assert(after[j] == before[j]);
    }
    lemma_latest_user_index_is(after, i);
    lemma_leading_prefix_of(c, k);
    assert forall|j: int| 0 <= j < k implies is_tool_response(#[trigger] c2[j]) by {
        assert(c2[j] == c[j]);
    }
    lemma_leading_prefix(c2, k);
}

proof fn lemma_leading_prefix_of(content: Seq<MessageContent>, k: int)
    requires
        k == leading_tool_responses(content),
    ensures
        forall|j: int| 0 <= j < k ==> is_tool_response(#[trigger] content[j]),
    decreases content.len(),
{
    if content.len() > 0 && is_tool_response(content[0]) {
        let rest = content.drop_first();
        lemma_leading_bound(rest);
        lemma_leading_prefix_of(rest, k - 1);
        assert forall|j: int| 0 <= j < k implies is_tool_response(#[trigger] content[j]) by {
            if j > 0 {
                assert(content[j] == rest[j - 1]);
            }
        }
    }
}

} // verus!
