//! Messages and the conversations they make up.
//!
//! A message is visible to the user, to the agent, to both or to neither.
//! Taking a message away from the agent turns its visibility off and leaves it
//! on record.

use vstd::prelude::*;
use vstd::string::*;

use crate::ids::{generate_message_id, message_id};
use crate::text::{join, joined, views};

verus! {

/// Who a message is from.
#[derive(Debug, Clone, Copy, PartialEq, Eq, Structural)]
pub enum Role {
    User,
    Assistant,
}

/// What a provider refused a request for.
#[derive(Debug, Clone, Copy, PartialEq, Eq, Structural)]
pub enum MessageErrorKind {
    /// The encoded request was larger than the provider accepts.
    RequestTooLarge,
    /// The conversation did not fit in the model's context window.
    ContextLengthExceeded,
    /// Anything else.
    Other,
}

/// How a notice is shown.
#[derive(Debug, Clone, Copy, PartialEq, Eq, Structural)]
pub enum SystemNotificationType {
    InlineMessage,
    ThinkingMessage,
}

#[derive(Debug, PartialEq, Eq)]
pub struct TextContent {
    pub text: String,
}

#[derive(Debug, PartialEq, Eq)]
pub struct ImageContent {
    pub data: String,
    pub mime_type: String,
}

#[derive(Debug, PartialEq, Eq)]
pub struct DocumentContent {
    pub data: String,
    pub mime_type: String,
}

#[derive(Debug, PartialEq, Eq)]
pub struct ErrorContent {
    pub kind: MessageErrorKind,
    pub message: String,
}

#[derive(Debug, PartialEq, Eq)]
pub struct SystemNotificationContent {
    pub notification_type: SystemNotificationType,
    pub msg: String,
}

/// A block of another kind (a tool call or its result, reasoning), kept as the
/// JSON text it is stored in.
#[derive(Debug, PartialEq, Eq)]
pub struct OtherContent {
    pub encoded: String,
}

/// One block of a message.
#[derive(Debug, PartialEq, Eq)]
pub enum MessageContent {
    Text(TextContent),
    Image(ImageContent),
    Document(DocumentContent),
    Error(ErrorContent),
    SystemNotification(SystemNotificationContent),
    Other(OtherContent),
}

/// What a block holds.
#[verifier::ext_equal]
pub enum ContentView {
    Text(Seq<char>),
    Image { data: Seq<char>, mime_type: Seq<char> },
    Document { data: Seq<char>, mime_type: Seq<char> },
    Error { kind: MessageErrorKind, message: Seq<char> },
    SystemNotification { notification_type: SystemNotificationType, msg: Seq<char> },
    Other(Seq<char>),
}

impl View for MessageContent {
    type V = ContentView;

    open spec fn view(&self) -> ContentView {
        match *self {
            MessageContent::Text(t) => ContentView::Text(t.text@),
            MessageContent::Image(i) => ContentView::Image {
                data: i.data@,
                mime_type: i.mime_type@,
            },
            MessageContent::Document(d) => ContentView::Document {
                data: d.data@,
                mime_type: d.mime_type@,
            },
            MessageContent::Error(e) => ContentView::Error { kind: e.kind, message: e.message@ },
            MessageContent::SystemNotification(n) => ContentView::SystemNotification {
                notification_type: n.notification_type,
                msg: n.msg@,
            },
            MessageContent::Other(o) => ContentView::Other(o.encoded@),
        }
    }
}

impl Clone for MessageContent {
    fn clone(&self) -> (r: Self)
        ensures
            r@ == self@,
    {
        match self {
            MessageContent::Text(t) => MessageContent::Text(TextContent { text: t.text.clone() }),
            MessageContent::Image(i) => MessageContent::Image(
                ImageContent { data: i.data.clone(), mime_type: i.mime_type.clone() },
            ),
            MessageContent::Document(d) => MessageContent::Document(
                DocumentContent { data: d.data.clone(), mime_type: d.mime_type.clone() },
            ),
            MessageContent::Error(e) => MessageContent::Error(
                ErrorContent { kind: e.kind, message: e.message.clone() },
            ),
            MessageContent::SystemNotification(n) => MessageContent::SystemNotification(
                SystemNotificationContent {
                    notification_type: n.notification_type,
                    msg: n.msg.clone(),
                },
            ),
            MessageContent::Other(o) => MessageContent::Other(
                OtherContent { encoded: o.encoded.clone() },
            ),
        }
    }
}

/// What each block of a message holds.
pub open spec fn contents(blocks: Seq<MessageContent>) -> Seq<ContentView> {
    blocks.map_values(|c: MessageContent| c@)
}

fn clone_contents(blocks: &Vec<MessageContent>) -> (r: Vec<MessageContent>)
    ensures
        contents(r@) == contents(blocks@),
{
    let mut out: Vec<MessageContent> = Vec::new();
    let mut i: usize = 0;
    while i < blocks.len()
        invariant
            i <= blocks@.len(),
            out@.len() == i,
            forall|j: int| 0 <= j < i ==> (#[trigger] out@[j])@ == blocks@[j]@,
        decreases blocks@.len() - i,
    {
        out.push(blocks[i].clone());
        i += 1;
    }
    assert(contents(out@) =~= contents(blocks@));
    out
}

/// The text blocks, in order.
pub open spec fn texts(blocks: Seq<ContentView>) -> Seq<Seq<char>>
    decreases blocks.len(),
{
    if blocks.len() == 0 {
        Seq::empty()
    } else {
        let rest = texts(blocks.drop_last());
        match blocks.last() {
            ContentView::Text(t) => rest.push(t),
            _ => rest,
        }
    }
}

/// The first error block.
pub open spec fn first_error(blocks: Seq<ContentView>) -> Option<(MessageErrorKind, Seq<char>)>
    decreases blocks.len(),
{
    if blocks.len() == 0 {
        None
    } else {
        match blocks[0] {
            ContentView::Error { kind, message } => Some((kind, message)),
            _ => first_error(blocks.drop_first()),
        }
    }
}

/// Who may see a message.
#[derive(Debug, Clone, Copy, PartialEq, Eq, Structural)]
pub struct MessageMetadata {
    pub user_visible: bool,
    pub agent_visible: bool,
}

impl MessageMetadata {
    pub fn agent_only() -> (r: Self)
        ensures
            r == (MessageMetadata { user_visible: false, agent_visible: true }),
    {
        MessageMetadata { user_visible: false, agent_visible: true }
    }

    pub fn user_only() -> (r: Self)
        ensures
            r == (MessageMetadata { user_visible: true, agent_visible: false }),
    {
        MessageMetadata { user_visible: true, agent_visible: false }
    }
}

impl Default for MessageMetadata {
    fn default() -> (r: Self)
        ensures
            r == (MessageMetadata { user_visible: true, agent_visible: true }),
    {
        MessageMetadata { user_visible: true, agent_visible: true }
    }
}

#[derive(Debug, PartialEq, Eq)]
pub struct Message {
    pub id: Option<String>,
    pub role: Role,
    pub content: Vec<MessageContent>,
    pub metadata: MessageMetadata,
}

/// What a message holds.
#[verifier::ext_equal]
pub struct MessageView {
    pub id: Option<Seq<char>>,
    pub role: Role,
    pub content: Seq<ContentView>,
    pub metadata: MessageMetadata,
}

/// What an optional string holds.
pub open spec fn option_view(s: Option<String>) -> Option<Seq<char>> {
    match s {
        Some(s) => Some(s@),
        None => None,
    }
}

pub fn clone_option(s: &Option<String>) -> (r: Option<String>)
    ensures
        r == *s,
{
    match s {
        Some(s) => Some(s.clone()),
        None => None,
    }
}

impl View for Message {
    type V = MessageView;

    open spec fn view(&self) -> MessageView {
        MessageView {
            id: option_view(self.id),
            role: self.role,
            content: contents(self.content@),
            metadata: self.metadata,
        }
    }
}

impl Clone for Message {
    fn clone(&self) -> (r: Self)
        ensures
            r@ == self@,
    {
        Message {
            id: clone_option(&self.id),
            role: self.role,
            content: clone_contents(&self.content),
            metadata: self.metadata,
        }
    }
}

impl MessageView {
    /// A message with no content yet, visible to both.
    pub open spec fn empty(role: Role) -> MessageView {
        MessageView {
            id: None,
            role,
            content: Seq::empty(),
            metadata: MessageMetadata { user_visible: true, agent_visible: true },
        }
    }

    pub open spec fn text(self, text: Seq<char>) -> MessageView {
        MessageView { content: self.content.push(ContentView::Text(text)), ..self }
    }

    pub open spec fn visible(self, user_visible: bool, agent_visible: bool) -> MessageView {
        MessageView { metadata: MessageMetadata { user_visible, agent_visible }, ..self }
    }

    /// A notice to the user, which the agent does not see.
    pub open spec fn notice(text: Seq<char>) -> MessageView {
        MessageView {
            content: seq![
                ContentView::SystemNotification {
                    notification_type: SystemNotificationType::InlineMessage,
                    msg: text,
                },
            ],
            metadata: MessageMetadata { user_visible: true, agent_visible: false },
            ..MessageView::empty(Role::Assistant)
        }
    }

    pub open spec fn error_kind(self) -> Option<MessageErrorKind> {
        match first_error(self.content) {
            Some(e) => Some(e.0),
            None => None,
        }
    }

    /// A prompt that a compaction keeps: text from the user that the agent sees,
    /// with nothing but attachments beside it.
    pub open spec fn preservable_prompt(self) -> bool {
        &&& self.role == Role::User
        &&& self.metadata.agent_visible
        &&& exists|i: int| 0 <= i < self.content.len() && #[trigger] self.content[i] is Text
        &&& forall|i: int| 0 <= i < self.content.len() ==> !(#[trigger] self.content[i] is Other)
    }
}

impl Message {
    pub fn user() -> (r: Self)
        ensures
            r@ == MessageView::empty(Role::User),
    {
        let r = Message {
            id: None,
            role: Role::User,
            content: Vec::new(),
            metadata: MessageMetadata { user_visible: true, agent_visible: true },
        };
        assert(r@.content =~= Seq::empty());
        r
    }

    pub fn assistant() -> (r: Self)
        ensures
            r@ == MessageView::empty(Role::Assistant),
    {
        let r = Message {
            id: None,
            role: Role::Assistant,
            content: Vec::new(),
            metadata: MessageMetadata { user_visible: true, agent_visible: true },
        };
        assert(r@.content =~= Seq::empty());
        r
    }

    pub fn with_id(self, id: &str) -> (r: Self)
        ensures
            r@ == (MessageView { id: Some(id@), ..self@ }),
    {
        Message { id: Some(id.to_owned()), ..self }
    }

    pub fn with_content(self, block: MessageContent) -> (r: Self)
        ensures
            r@ == (MessageView { content: self@.content.push(block@), ..self@ }),
    {
        let mut content: Vec<MessageContent> = self.content;
        content.push(block);
        assert(contents(content@) =~= self@.content.push(block@));
        Message { id: self.id, role: self.role, content, metadata: self.metadata }
    }

    pub fn with_text(self, text: &str) -> (r: Self)
        ensures
            r@ == self@.text(text@),
    {
        self.with_content(MessageContent::Text(TextContent { text: text.to_owned() }))
    }

    pub fn with_metadata(self, metadata: MessageMetadata) -> (r: Self)
        ensures
            r@ == (MessageView { metadata, ..self@ }),
    {
        Message { metadata, ..self }
    }

    pub fn with_visibility(self, user_visible: bool, agent_visible: bool) -> (r: Self)
        ensures
            r@ == self@.visible(user_visible, agent_visible),
    {
        Message { metadata: MessageMetadata { user_visible, agent_visible }, ..self }
    }

    /// Adds a notice. Notices are for the user: the agent does not see a message
    /// that holds one.
    pub fn with_system_notification(
        self,
        notification_type: SystemNotificationType,
        msg: &str,
    ) -> (r: Self)
        ensures
            r@ == (MessageView {
                content: self@.content.push(
                    ContentView::SystemNotification { notification_type, msg: msg@ },
                ),
                metadata: MessageMetadata { user_visible: true, agent_visible: false },
                ..self@
            }),
    {
        let block = MessageContent::SystemNotification(
            SystemNotificationContent { notification_type, msg: msg.to_owned() },
        );
        self.with_content(block).with_metadata(MessageMetadata::user_only())
    }

    /// A notice to the user, which the agent does not see.
    pub fn notice(text: &str) -> (r: Self)
        ensures
            r@ == MessageView::notice(text@),
    {
        let r = Message::assistant().with_system_notification(
            SystemNotificationType::InlineMessage,
            text,
        );
        assert(r@.content =~= MessageView::notice(text@).content);
        r
    }

    /// Gives the message `id` if it has none.
    pub fn with_id_if_missing(self, id: String) -> (r: Self)
        ensures
            self.id is Some ==> r@ == self@,
            self.id is None ==> r@ == (MessageView { id: Some(id@), ..self@ }),
    {
        match self.id {
            Some(_) => self,
            None => Message { id: Some(id), ..self },
        }
    }

    /// Gives the message an identifier if it has none.
    pub fn with_generated_id_if_missing(self) -> (r: Self)
        ensures
            self.id is Some ==> r@ == self@,
            self.id is None ==> exists|high: u64, low: u64|
                r@ == (MessageView { id: Some(#[trigger] message_id(high, low)), ..self@ }),
    {
        let id: String = generate_message_id();
        self.with_id_if_missing(id)
    }

    pub fn is_user_visible(&self) -> (r: bool)
        ensures
            r == self@.metadata.user_visible,
    {
        self.metadata.user_visible
    }

    pub fn is_agent_visible(&self) -> (r: bool)
        ensures
            r == self@.metadata.agent_visible,
    {
        self.metadata.agent_visible
    }

    /// The text blocks, in order.
    pub fn text_blocks(&self) -> (r: Vec<String>)
        ensures
            views(r@) == texts(self@.content),
    {
        let mut out: Vec<String> = Vec::new();
        let mut i: usize = 0;
        assert(self@.content.take(0) =~= Seq::empty());
        assert(views(out@) =~= Seq::empty());
        while i < self.content.len()
            invariant
                i <= self.content@.len(),
                views(out@) == texts(self@.content.take(i as int)),
            decreases self.content@.len() - i,
        {
            assert(self@.content.take(i + 1).drop_last() =~= self@.content.take(i as int));
            assert(self@.content.take(i + 1).last() == self.content@[i as int]@);
            let ghost so_far = out@;
            match &self.content[i] {
                MessageContent::Text(t) => {
                    out.push(t.text.clone());
                    assert(views(out@) =~= views(so_far).push(t.text@));
                },
                _ => {},
            }
            i += 1;
        }
        assert(self@.content.take(self.content@.len() as int) =~= self@.content);
        out
    }

    /// All text of the message, one block to a line.
    pub fn as_concat_text(&self) -> (r: String)
        ensures
            r@ == joined(texts(self@.content), "\n"@),
    {
        join(&self.text_blocks(), "\n")
    }

    /// The first error block: its kind and its words.
    pub fn as_error(&self) -> (r: Option<(MessageErrorKind, &str)>)
        ensures
            match (r, first_error(self@.content)) {
                (Some(e), Some(f)) => e.0 == f.0 && e.1@ == f.1,
                (None, None) => true,
                _ => false,
            },
    {
        let mut i: usize = 0;
        assert(self@.content.skip(0) =~= self@.content);
        while i < self.content.len()
            invariant
                i <= self.content@.len(),
                first_error(self@.content) == first_error(self@.content.skip(i as int)),
            decreases self.content@.len() - i,
        {
            assert(self@.content.skip(i as int)[0] == self.content@[i as int]@);
            assert(self@.content.skip(i as int).drop_first() =~= self@.content.skip(i + 1));
            match &self.content[i] {
                MessageContent::Error(e) => {
                    return Some((e.kind, e.message.as_str()));
                },
                _ => {},
            }
            i += 1;
        }
        None
    }

    pub fn error_kind(&self) -> (r: Option<MessageErrorKind>)
        ensures
            r == self@.error_kind(),
    {
        match self.as_error() {
            Some(e) => Some(e.0),
            None => None,
        }
    }

    /// Whether a compaction keeps this message as the prompt to carry on with.
    pub fn is_preservable_prompt(&self) -> (r: bool)
        ensures
            r == self@.preservable_prompt(),
    {
        let mut has_text: bool = false;
        let mut has_other: bool = false;
        let mut i: usize = 0;
        while i < self.content.len()
            invariant
                i <= self.content@.len(),
                has_text == exists|j: int| 0 <= j < i && #[trigger] self@.content[j] is Text,
                has_other == exists|j: int| 0 <= j < i && #[trigger] self@.content[j] is Other,
            decreases self.content@.len() - i,
        {
            assert(self@.content[i as int] == self.content@[i as int]@);
            match &self.content[i] {
                MessageContent::Text(_) => {
                    has_text = true;
                },
                MessageContent::Other(_) => {
                    has_other = true;
                },
                _ => {},
            }
            i += 1;
        }
        (match self.role {
            Role::User => true,
            Role::Assistant => false,
        }) && self.metadata.agent_visible && has_text && !has_other
    }
}

/// A sequence of messages.
#[derive(Debug, PartialEq, Eq)]
pub struct Conversation {
    messages: Vec<Message>,
}

/// What each message of a list holds.
pub open spec fn message_views(messages: Seq<Message>) -> Seq<MessageView> {
    messages.map_values(|m: Message| m@)
}

pub fn clone_messages(messages: &Vec<Message>) -> (r: Vec<Message>)
    ensures
        message_views(r@) == message_views(messages@),
{
    let mut out: Vec<Message> = Vec::new();
    let mut i: usize = 0;
    while i < messages.len()
        invariant
            i <= messages@.len(),
            out@.len() == i,
            forall|j: int| 0 <= j < i ==> (#[trigger] out@[j])@ == messages@[j]@,
        decreases messages@.len() - i,
    {
        out.push(messages[i].clone());
        i += 1;
    }
    assert(message_views(out@) =~= message_views(messages@));
    out
}

impl View for Conversation {
    type V = Seq<MessageView>;

    closed spec fn view(&self) -> Seq<MessageView> {
        message_views(self.messages@)
    }
}

impl Clone for Conversation {
    fn clone(&self) -> (r: Self)
        ensures
            r@ == self@,
    {
        Conversation { messages: clone_messages(&self.messages) }
    }
}

/// The messages that the agent sees.
pub open spec fn agent_visible(messages: Seq<MessageView>) -> Seq<MessageView> {
    messages.filter(|m: MessageView| m.metadata.agent_visible)
}

/// The kind of error that a conversation ends in.
pub open spec fn trailing_error_view(messages: Seq<MessageView>) -> Option<MessageErrorKind> {
    if messages.len() == 0 {
        None
    } else {
        messages.last().error_kind()
    }
}

impl Conversation {
    pub fn empty() -> (r: Self)
        ensures
            r@ == Seq::<MessageView>::empty(),
    {
        let r = Conversation { messages: Vec::new() };
        assert(r@ =~= Seq::empty());
        r
    }

    pub fn new_unvalidated(messages: Vec<Message>) -> (r: Self)
        ensures
            r@ == message_views(messages@),
    {
        Conversation { messages }
    }

    pub fn messages(&self) -> (r: &Vec<Message>)
        ensures
            message_views(r@) == self@,
    {
        &self.messages
    }

    pub fn push(&mut self, message: Message)
        ensures
            final(self)@ == old(self)@.push(message@),
    {
        self.messages.push(message);
        assert(self@ =~= old(self)@.push(message@));
    }

    pub fn last(&self) -> (r: Option<&Message>)
        ensures
            self@.len() == 0 ==> r is None,
            self@.len() > 0 ==> r is Some && r->0@ == self@.last(),
    {
        if self.messages.len() == 0 {
            None
        } else {
            Some(&self.messages[self.messages.len() - 1])
        }
    }

    /// The messages that the agent sees, in order.
    pub fn agent_visible_messages(&self) -> (r: Vec<Message>)
        ensures
            message_views(r@) == agent_visible(self@),
    {
        let ghost visible = |m: MessageView| m.metadata.agent_visible;
        let mut out: Vec<Message> = Vec::new();
        let mut i: usize = 0;
        reveal(Seq::filter);
        assert(self@.take(0) =~= Seq::empty());
        assert(message_views(out@) =~= Seq::empty());
        while i < self.messages.len()
            invariant
                i <= self.messages@.len(),
                visible == (|m: MessageView| m.metadata.agent_visible),
                message_views(out@) == self@.take(i as int).filter(visible),
            decreases self.messages@.len() - i,
        {
            reveal(Seq::filter);
            assert(self@.take(i + 1).drop_last() =~= self@.take(i as int));
            assert(self@.take(i + 1).last() == self.messages@[i as int]@);
            let ghost so_far = out@;
            if self.messages[i].is_agent_visible() {
                out.push(self.messages[i].clone());
                assert(message_views(out@) =~= message_views(so_far).push(
                    self.messages@[i as int]@,
                ));
            }
            i += 1;
        }
        assert(self@.take(self.messages@.len() as int) =~= self@);
        out
    }

    /// The kind of error that the conversation ends in.
    pub fn trailing_error(&self) -> (r: Option<MessageErrorKind>)
        ensures
            r == trailing_error_view(self@),
    {
        match self.last() {
            Some(m) => m.error_kind(),
            None => None,
        }
    }
}

/// A block more adds its text to the texts if it is one, and nothing otherwise.
pub proof fn every_text_block_counts(blocks: Seq<ContentView>, block: ContentView)
    ensures
        texts(Seq::empty()) == Seq::<Seq<char>>::empty(),
        block is Text ==> texts(blocks.push(block)) == texts(blocks).push(block->Text_0),
        !(block is Text) ==> texts(blocks.push(block)) == texts(blocks),
{
    assert(blocks.push(block).drop_last() =~= blocks);
}

/// The error of a message is that of its first error block, whatever stands
/// before it or after it.
pub proof fn the_first_error_block_counts(blocks: Seq<ContentView>, i: int)
    requires
        0 <= i < blocks.len(),
        blocks[i] is Error,
        forall|j: int| 0 <= j < i ==> !(#[trigger] blocks[j] is Error),
    ensures
        first_error(blocks) == Some((blocks[i]->kind, blocks[i]->message)),
    decreases i,
{
    if i > 0 {
        assert(!(blocks[0] is Error));
        let rest = blocks.drop_first();
        assert forall|j: int| 0 <= j < i - 1 implies !(#[trigger] rest[j] is Error) by {
            assert(rest[j] == blocks[j + 1]);
        }
        the_first_error_block_counts(rest, i - 1);
    }
}

/// A message without an error block has no error.
pub proof fn no_error_block_no_error(blocks: Seq<ContentView>)
    requires
        forall|j: int| 0 <= j < blocks.len() ==> !(#[trigger] blocks[j] is Error),
    ensures
        first_error(blocks) is None,
    decreases blocks.len(),
{
    if blocks.len() > 0 {
        assert(!(blocks[0] is Error));
        let rest = blocks.drop_first();
        assert forall|j: int| 0 <= j < rest.len() implies !(#[trigger] rest[j] is Error) by {
            assert(rest[j] == blocks[j + 1]);
        }
        no_error_block_no_error(rest);
    }
}

/// The agent sees one message more exactly if the message more is visible to it,
/// and sees it last.
pub proof fn the_agent_sees_what_is_visible_to_it(
    messages: Seq<MessageView>,
    message: MessageView,
)
    ensures
        agent_visible(Seq::empty()) == Seq::<MessageView>::empty(),
        message.metadata.agent_visible ==> agent_visible(messages.push(message)) == agent_visible(
            messages,
        ).push(message),
        !message.metadata.agent_visible ==> agent_visible(messages.push(message))
            == agent_visible(messages),
{
    reveal(Seq::filter);
    assert(messages.push(message).drop_last() =~= messages);
    assert(agent_visible(Seq::empty()) =~= Seq::empty());
}

/// A conversation ends in the error of its last message, whatever came before.
pub proof fn the_last_message_tells_how_it_ends(
    messages: Seq<MessageView>,
    message: MessageView,
)
    ensures
        trailing_error_view(Seq::empty()) is None,
        trailing_error_view(messages.push(message)) is Some == first_error(
            message.content,
        ) is Some,
        first_error(message.content) is Some ==> trailing_error_view(messages.push(message))
            == Some((first_error(message.content)->0).0),
{
    assert(messages.push(message).last() == message);
}

/// A prompt stays one with another text or attachment beside it and whether or
/// not the user sees it. With a block of another kind it is none, nor from the
/// assistant, nor hidden from the agent.
pub proof fn what_makes_a_prompt(
    message: MessageView,
    block: ContentView,
    more: MessageView,
    turned: MessageView,
)
    requires
        more == (MessageView { content: message.content.push(block), ..message }),
        turned.role == message.role,
        turned.content == message.content,
        turned.metadata.agent_visible == message.metadata.agent_visible,
    ensures
        message.preservable_prompt() ==> message.role == Role::User
            && message.metadata.agent_visible,
        turned.preservable_prompt() == message.preservable_prompt(),
        message.preservable_prompt() && !(block is Other) ==> more.preservable_prompt(),
        block is Other ==> !more.preservable_prompt(),
        message.role == Role::User && message.metadata.agent_visible && message.content.len() == 1
            ==> message.preservable_prompt() == (message.content[0] is Text),
{
    assert(more.content[message.content.len() as int] == block);
    if message.preservable_prompt() {
        let i = choose|i: int|
            0 <= i < message.content.len() && #[trigger] message.content[i] is Text;
        assert(more.content[i] == message.content[i]);
    }
}

/// A notice is one line to the user, in full, which the agent does not see. It is
/// no prompt and no error.
pub proof fn a_notice_is_for_the_user_alone(text: Seq<char>)
    ensures
        MessageView::notice(text).content == seq![
            ContentView::SystemNotification {
                notification_type: SystemNotificationType::InlineMessage,
                msg: text,
            },
        ],
        MessageView::notice(text).role == Role::Assistant,
        MessageView::notice(text).metadata.user_visible,
        !MessageView::notice(text).metadata.agent_visible,
        MessageView::notice(text).id is None,
        !MessageView::notice(text).preservable_prompt(),
        MessageView::notice(text).error_kind() is None,
{
    reveal_with_fuel(first_error, 2);
}

/// A text put into a message stands there last and in full, and changes nothing
/// else of it. Who sees a message is no part of what it says.
pub proof fn a_text_is_put_last(message: MessageView, text: Seq<char>, user: bool, agent: bool)
    ensures
        message.text(text).content == message.content.push(ContentView::Text(text)),
        texts(message.text(text).content) == texts(message.content).push(text),
        message.text(text).id == message.id,
        message.text(text).role == message.role,
        message.text(text).metadata == message.metadata,
        message.visible(user, agent).content == message.content,
        message.visible(user, agent).id == message.id,
        message.visible(user, agent).role == message.role,
        message.visible(user, agent).metadata.user_visible == user,
        message.visible(user, agent).metadata.agent_visible == agent,
{
    every_text_block_counts(message.content, ContentView::Text(text));
}

} // verus!
