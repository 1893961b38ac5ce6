//! What a rollout says: the texts that users and assistants exchanged, and
//! previews made of them.
use vstd::prelude::*;

use crate::preview::{excerpt, excerpt_around_match, optional_text, truncate_preview_text, truncated};
use crate::text::{
    chars_of, find_chars, join, join_strings, position, string_of, texts, trim, trim_bounds, trimmed,
};

verus! {

/// How many lines of a rollout a conversation preview looks at.
pub const PREVIEW_SCAN_LINE_LIMIT: usize = 400;

// ---------------------------------------------------------------------------
// Rollout lines
// ---------------------------------------------------------------------------

/// One piece of the content of a message.
pub enum ContentItem {
    InputText { text: String },
    OutputText { text: String },
    InputImage,
}

/// An event that was recorded in a session.
pub enum EventMsg {
    UserMessage { message: String },
    AgentMessage { message: String },
    Other,
}

/// An item of a model response that was recorded in a session.
pub enum ResponseItem {
    Message { role: String, content: Vec<ContentItem> },
    Other,
}

/// What one line of a rollout records.
pub enum RolloutItem {
    SessionMeta,
    TurnContext,
    Compacted,
    EventMsg(EventMsg),
    ResponseItem(ResponseItem),
}

/// A text of a conversation and who it is from.
pub enum ConversationText {
    User(String),
    Assistant(String),
}

/// The model of a [`ConversationText`].
pub enum Spoken {
    User(Seq<char>),
    Assistant(Seq<char>),
}

impl View for ConversationText {
    type V = Spoken;

    open spec fn view(&self) -> Spoken {
        match self {
            ConversationText::User(text) => Spoken::User(text@),
            ConversationText::Assistant(text) => Spoken::Assistant(text@),
        }
    }
}

/// The text of a piece of content, if it has one.
pub open spec fn content_text(item: ContentItem) -> Option<Seq<char>> {
    match item {
        ContentItem::InputText { text } => Some(text@),
        ContentItem::OutputText { text } => Some(text@),
        ContentItem::InputImage => None,
    }
}

/// The texts among pieces of content.
pub open spec fn content_texts(content: Seq<ContentItem>) -> Seq<Seq<char>>
    decreases content.len(),
{
    if content.len() == 0 {
        seq![]
    } else {
        let before = content_texts(content.drop_last());
        match content_text(content.last()) {
            Some(text) => before.push(text),
            None => before,
        }
    }
}

/// What the user asked, out of a message that may carry context before
/// `marker`.
pub open spec fn user_request(message: Seq<char>, marker: Seq<char>) -> Seq<char> {
    match position(message, marker) {
        Some(at) => trim(message.skip(at + marker.len())),
        None => trim(message),
    }
}

/// The conversation texts of a rollout item. `marker` opens the user's own
/// words in a user message.
pub open spec fn conversation_texts(item: RolloutItem, marker: Seq<char>) -> Seq<Spoken> {
    match item {
        RolloutItem::EventMsg(EventMsg::UserMessage { message }) => {
            let request = user_request(message@, marker);
            if request.len() == 0 {
                seq![]
            } else {
                seq![Spoken::User(request)]
            }
        },
        RolloutItem::EventMsg(EventMsg::AgentMessage { message }) => if trim(message@).len() == 0 {
            seq![]
        } else {
            seq![Spoken::Assistant(trim(message@))]
        },
        RolloutItem::ResponseItem(ResponseItem::Message { role, content }) => {
            let text = join(content_texts(content@), " "@);
            if trim(text).len() == 0 {
                seq![]
            } else if role@ == "user"@ {
                seq![Spoken::User(text)]
            } else if role@ == "assistant"@ {
                seq![Spoken::Assistant(text)]
            } else {
                seq![]
            }
        },
        _ => seq![],
    }
}

/// The views of a vector of conversation texts.
pub open spec fn spoken_views(texts: Seq<ConversationText>) -> Seq<Spoken> {
    texts.map_values(|text: ConversationText| text@)
}

/// The text of a piece of content, if it has one.
pub fn content_item_text(item: &ContentItem) -> (text: Option<&String>)
    ensures
        content_text(*item) == match text {
            Some(text) => Some(text@),
            None => None,
        },
{
    match item {
        ContentItem::InputText { text } => Some(text),
        ContentItem::OutputText { text } => Some(text),
        ContentItem::InputImage => None,
    }
}

/// What the user asked, out of a message that may carry context before
/// `marker`.
pub fn strip_user_message_prefix(text: &str, marker: &str) -> (request: String)
    ensures
        request@ == user_request(text@, marker@),
{
    let chars = chars_of(text);
    let opening = chars_of(marker);
    match find_chars(&chars, &opening) {
        Some(at) => {
            let total: usize = chars.len();
            assert(at + opening@.len() <= total);
            let start = at + opening.len();
            let bounds = trim_bounds(&chars, start, total);
            assert(chars@.subrange(start as int, chars@.len() as int) =~= text@.skip(start as int));
            string_of(&chars, bounds.0, bounds.1)
        },
        None => trimmed(text),
    }
}

/// Tests whether two texts are the same.
fn same_text(a: &String, b: &str) -> (same: bool)
    ensures
        same == (a@ == b@),
{
    *a == b.to_string()
}

/// The texts among pieces of content, joined with spaces.
fn joined_content(content: &Vec<ContentItem>) -> (text: String)
    ensures
        text@ == join(content_texts(content@), " "@),
{
    let mut parts: Vec<String> = Vec::new();
    let mut i: usize = 0;
    assert(texts(parts@) =~= seq![]);
    while i < content.len()
        invariant
            i <= content@.len(),
            texts(parts@) == content_texts(content@.take(i as int)),
        decreases content@.len() - i,
    {
        let ghost before = parts@;
        proof {
            let seen = content@.take(i as int);
            assert(content@.take(i + 1) =~= seen.push(content@[i as int]));
            assert(seen.push(content@[i as int]).drop_last() =~= seen);
        }
        if let Some(text) = content_item_text(&content[i]) {
            parts.push(text.clone());
            assert(texts(parts@) =~= texts(before).push(text@));
        }
        i = i + 1;
    }
    assert(content@.take(content@.len() as int) =~= content@);
    join_strings(&parts, " ")
}

/// The conversation texts of a rollout item.
pub fn conversation_text_from_item(item: &RolloutItem, marker: &str) -> (found: Vec<ConversationText>)
    ensures
        spoken_views(found@) == conversation_texts(*item, marker@),
{
    let mut found: Vec<ConversationText> = Vec::new();
    match item {
        RolloutItem::EventMsg(EventMsg::UserMessage { message }) => {
            let request = strip_user_message_prefix(message.as_str(), marker);
            if !request.as_str().is_empty() {
                found.push(ConversationText::User(request));
            }
        },
        RolloutItem::EventMsg(EventMsg::AgentMessage { message }) => {
            let text = trimmed(message.as_str());
            if !text.as_str().is_empty() {
                found.push(ConversationText::Assistant(text));
            }
        },
        RolloutItem::ResponseItem(ResponseItem::Message { role, content }) => {
            let text = joined_content(content);
            if !trimmed(text.as_str()).as_str().is_empty() {
                if same_text(role, "user") {
                    found.push(ConversationText::User(text));
                } else if same_text(role, "assistant") {
                    found.push(ConversationText::Assistant(text));
                }
            }
        },
        _ => {},
    }
    assert(spoken_views(found@) =~= conversation_texts(*item, marker@));
    found
}

// ---------------------------------------------------------------------------
// Previews
// ---------------------------------------------------------------------------

/// Compact context attached to a thread that a search found.
#[derive(Debug, PartialEq, Eq)]
pub enum ThreadSearchPreview {
    /// How the conversation opens.
    Conversation { user_message: String, assistant_message: Option<String> },
    /// The text around the search term.
    ContentMatch { snippet: String },
}

/// The model of a [`ThreadSearchPreview`].
pub enum PreviewView {
    Conversation { user_message: Seq<char>, assistant_message: Option<Seq<char>> },
    ContentMatch { snippet: Seq<char> },
}

impl View for ThreadSearchPreview {
    type V = PreviewView;

    open spec fn view(&self) -> PreviewView {
        match self {
            ThreadSearchPreview::Conversation { user_message, assistant_message } => {
                PreviewView::Conversation {
                    user_message: user_message@,
                    assistant_message: optional_text(*assistant_message),
                }
            },
            ThreadSearchPreview::ContentMatch { snippet } => PreviewView::ContentMatch {
                snippet: snippet@,
            },
        }
    }
}

/// The model of an optional preview.
pub open spec fn preview_view(preview: Option<ThreadSearchPreview>) -> Option<PreviewView> {
    match preview {
        Some(preview) => Some(preview@),
        None => None,
    }
}

impl Clone for ThreadSearchPreview {
    fn clone(&self) -> (copy: Self)
        ensures
            copy@ == self@,
    {
        match self {
            ThreadSearchPreview::Conversation { user_message, assistant_message } => {
                ThreadSearchPreview::Conversation {
                    user_message: user_message.clone(),
                    assistant_message: match assistant_message {
                        Some(text) => Some(text.clone()),
                        None => None,
                    },
                }
            },
            ThreadSearchPreview::ContentMatch { snippet } => ThreadSearchPreview::ContentMatch {
                snippet: snippet.clone(),
            },
        }
    }
}

/// The words of a conversation text, whoever it is from.
pub open spec fn said(spoken: Spoken) -> Seq<char> {
    match spoken {
        Spoken::User(text) => text,
        Spoken::Assistant(text) => text,
    }
}

/// The excerpt from the first text that has one.
pub open spec fn first_excerpt(spoken: Seq<Spoken>, term: Seq<char>) -> Option<Seq<char>>
    decreases spoken.len(),
{
    if spoken.len() == 0 {
        None
    } else {
        match excerpt(said(spoken[0]), term) {
            Some(found) => Some(found),
            None => first_excerpt(spoken.drop_first(), term),
        }
    }
}

/// The preview for a rollout line on which a content search found `term`: none
/// where the line does not parse, or the term is not in what was said.
pub open spec fn content_preview(item: Option<RolloutItem>, term: Seq<char>, marker: Seq<char>) -> Option<
    PreviewView,
> {
    match item {
        None => None,
        Some(item) => match first_excerpt(conversation_texts(item, marker), term) {
            Some(snippet) => Some(PreviewView::ContentMatch { snippet }),
            None => None,
        },
    }
}

/// The preview for a rollout line on which a content search found
/// `search_term`. `item` is what the line records, if it parses.
pub fn content_match_preview(item: &Option<RolloutItem>, search_term: &str, marker: &str) -> (preview:
    Option<ThreadSearchPreview>)
    ensures
        preview_view(preview) == content_preview(*item, search_term@, marker@),
{
    let recorded = match item {
        Some(recorded) => recorded,
        None => {
            return None;
        },
    };
    let found = conversation_text_from_item(recorded, marker);
    let ghost spoken = spoken_views(found@);
    let mut i: usize = 0;
    assert(spoken.skip(0) =~= spoken);
    while i < found.len()
        invariant
            i <= found@.len(),
            spoken == spoken_views(found@),
            first_excerpt(spoken, search_term@) == first_excerpt(
                spoken.skip(i as int),
                search_term@,
            ),
            *item == Some(*recorded),
            spoken == conversation_texts(*recorded, marker@),
        decreases found@.len() - i,
    {
        assert(spoken.skip(i as int)[0] == found@[i as int]@);
        assert(spoken.skip(i as int).drop_first() =~= spoken.skip(i + 1));
        let text = match &found[i] {
            ConversationText::User(text) => text,
            ConversationText::Assistant(text) => text,
        };
        if let Some(snippet) = excerpt_around_match(text.as_str(), search_term) {
            return Some(ThreadSearchPreview::ContentMatch { snippet });
        }
        i = i + 1;
    }
    None
}

// ---------------------------------------------------------------------------
// How a conversation opens
// ---------------------------------------------------------------------------

/// Everything that is said on `lines`, in order.
pub open spec fn spoken_on(lines: Seq<Option<RolloutItem>>, marker: Seq<char>) -> Seq<Spoken>
    decreases lines.len(),
{
    if lines.len() == 0 {
        seq![]
    } else {
        let before = spoken_on(lines.drop_last(), marker);
        match lines.last() {
            Some(item) => before + conversation_texts(item, marker),
            None => before,
        }
    }
}

/// The first text from the user.
pub open spec fn first_user(spoken: Seq<Spoken>) -> Option<Seq<char>>
    decreases spoken.len(),
{
    if spoken.len() == 0 {
        None
    } else {
        match spoken[0] {
            Spoken::User(text) => Some(text),
            Spoken::Assistant(_) => first_user(spoken.drop_first()),
        }
    }
}

/// The first text from the assistant.
pub open spec fn first_assistant(spoken: Seq<Spoken>) -> Option<Seq<char>>
    decreases spoken.len(),
{
    if spoken.len() == 0 {
        None
    } else {
        match spoken[0] {
            Spoken::Assistant(text) => Some(text),
            Spoken::User(_) => first_assistant(spoken.drop_first()),
        }
    }
}

/// The first text from the assistant after the first one from the user.
pub open spec fn first_reply(spoken: Seq<Spoken>) -> Option<Seq<char>>
    decreases spoken.len(),
{
    if spoken.len() == 0 {
        None
    } else {
        match spoken[0] {
            Spoken::User(_) => first_assistant(spoken.drop_first()),
            Spoken::Assistant(_) => first_reply(spoken.drop_first()),
        }
    }
}

/// An optional text, cut to the length of a preview.
pub open spec fn shortened(text: Option<Seq<char>>) -> Option<Seq<char>> {
    match text {
        Some(text) => Some(truncated(text)),
        None => None,
    }
}

/// How a conversation opens, out of what was said.
pub open spec fn opening(spoken: Seq<Spoken>) -> Option<PreviewView> {
    match first_user(spoken) {
        Some(text) => Some(
            PreviewView::Conversation {
                user_message: truncated(text),
                assistant_message: shortened(first_reply(spoken)),
            },
        ),
        None => None,
    }
}

proof fn lemma_first_assistant_push(spoken: Seq<Spoken>, next: Spoken)
    ensures
        first_assistant(spoken.push(next)) == match first_assistant(spoken) {
            Some(text) => Some(text),
            None => match next {
                Spoken::Assistant(text) => Some(text),
                Spoken::User(_) => None,
            },
        },
    decreases spoken.len(),
{
    let more = spoken.push(next);
    if spoken.len() == 0 {
        assert(first_assistant(more.drop_first()) is None);
    } else {
        assert(more.drop_first() =~= spoken.drop_first().push(next));
        lemma_first_assistant_push(spoken.drop_first(), next);
    }
}

/// What one more text changes.
pub proof fn opening_push(spoken: Seq<Spoken>, next: Spoken)
    ensures
        first_user(spoken.push(next)) == match first_user(spoken) {
            Some(text) => Some(text),
            None => match next {
                Spoken::User(text) => Some(text),
                Spoken::Assistant(_) => None,
            },
        },
        first_reply(spoken.push(next)) == match first_reply(spoken) {
            Some(text) => Some(text),
            None => match next {
                Spoken::Assistant(text) if first_user(spoken) is Some => Some(text),
                _ => None,
            },
        },
    decreases spoken.len(),
{
    let more = spoken.push(next);
    if spoken.len() == 0 {
        assert(more.drop_first() =~= seq![]);
        assert(first_user(more.drop_first()) is None);
        assert(first_assistant(more.drop_first()) is None);
        assert(first_reply(more.drop_first()) is None);
    } else {
        assert(more.drop_first() =~= spoken.drop_first().push(next));
        opening_push(spoken.drop_first(), next);
        lemma_first_assistant_push(spoken.drop_first(), next);
    }
}

/// A reply comes after a request.
pub proof fn reply_follows_request(spoken: Seq<Spoken>)
    ensures
        first_reply(spoken) is Some ==> first_user(spoken) is Some,
    decreases spoken.len(),
{
    if spoken.len() > 0 {
        reply_follows_request(spoken.drop_first());
    }
}

/// Reads the lines of a rollout until it is known how the conversation opens.
pub struct ConversationScan {
    marker: String,
    lines_scanned: usize,
    user_message: Option<String>,
    assistant_message: Option<String>,
    lines: Ghost<Seq<Option<RolloutItem>>>,
}

impl ConversationScan {
    /// What the lines that were read record.
    pub closed spec fn lines(self) -> Seq<Option<RolloutItem>> {
        self.lines@
    }

    /// What opens the user's own words in a user message.
    pub closed spec fn marker(self) -> Seq<char> {
        self.marker@
    }

    /// Everything that was said so far.
    pub open spec fn spoken(self) -> Seq<Spoken> {
        spoken_on(self.lines(), self.marker())
    }

    /// The scan knows what was said on the lines that it read.
    pub closed spec fn well_formed(self) -> bool {
        &&& self.lines_scanned == self.lines@.len()
        &&& optional_text(self.user_message) == shortened(first_user(self.spoken()))
        &&& optional_text(self.assistant_message) == shortened(first_reply(self.spoken()))
    }

    /// Another line may still change the preview.
    pub open spec fn is_open(self) -> bool {
        &&& self.lines().len() < PREVIEW_SCAN_LINE_LIMIT
        &&& first_reply(self.spoken()) is None
    }

    /// Starts before the first line.
    pub fn new(marker: &str) -> (scan: Self)
        ensures
            scan.well_formed(),
            scan.marker() == marker@,
            scan.lines() == Seq::<Option<RolloutItem>>::empty(),
    {
        ConversationScan {
            marker: marker.to_string(),
            lines_scanned: 0,
            user_message: None,
            assistant_message: None,
            lines: Ghost(Seq::empty()),
        }
    }

    /// Another line is to be read.
    pub fn wants_line(&self) -> (wants: bool)
        requires
            self.well_formed(),
        ensures
            wants == self.is_open(),
    {
        proof {
            reply_follows_request(self.spoken());
        }
        self.lines_scanned < PREVIEW_SCAN_LINE_LIMIT && !(self.user_message.is_some()
            && self.assistant_message.is_some())
    }

    /// Takes what the next line records; `None` where it does not parse.
    pub fn take_line(&mut self, item: Option<RolloutItem>)
        requires
            old(self).well_formed(),
            old(self).is_open(),
        ensures
            final(self).well_formed(),
            final(self).marker() == old(self).marker(),
            final(self).lines() == old(self).lines().push(item),
    {
        let ghost before = self.spoken();
        let ghost marker = self.marker@;
        let ghost read = self.lines@;
        let mut user_message = self.user_message.take();
        let mut assistant_message = self.assistant_message.take();
        let ghost mut spoken = before;
        assert(read.push(item).drop_last() =~= read);
        if let Some(item) = &item {
            let found = conversation_text_from_item(item, self.marker.as_str());
            let ghost views = spoken_views(found@);
            let mut i: usize = 0;
            assert(before + views.take(0) =~= before);
            while i < found.len()
                invariant
                    i <= found@.len(),
                    views == spoken_views(found@),
                    spoken == before + views.take(i as int),
                    optional_text(user_message) == shortened(first_user(spoken)),
                    optional_text(assistant_message) == shortened(first_reply(spoken)),
                decreases found@.len() - i,
            {
                proof {
                    let next = found@[i as int]@;
                    opening_push(spoken, next);
                    reply_follows_request(spoken);
                    assert(before + views.take(i + 1) =~= spoken.push(next));
                    spoken = spoken.push(next);
                }
                match &found[i] {
                    ConversationText::User(text) => {
                        if user_message.is_none() {
                            user_message = Some(truncate_preview_text(text.as_str()));
                        }
                    },
                    ConversationText::Assistant(text) => {
                        if user_message.is_some() && assistant_message.is_none() {
                            assistant_message = Some(truncate_preview_text(text.as_str()));
                        }
                    },
                }
                i = i + 1;
            }
            assert(views.take(views.len() as int) =~= views);
        }
        self.user_message = user_message;
        self.assistant_message = assistant_message;
        self.lines_scanned = self.lines_scanned + 1;
        self.lines = Ghost(read.push(item));
        assert(self.spoken() == spoken);
    }

    /// How the conversation opens, as far as the lines that were read tell.
    pub fn finish(self) -> (preview: Option<ThreadSearchPreview>)
        requires
            self.well_formed(),
        ensures
            preview_view(preview) == opening(self.spoken()),
    {
        match self.user_message {
            Some(user_message) => Some(
                ThreadSearchPreview::Conversation {
                    user_message,
                    assistant_message: self.assistant_message,
                },
            ),
            None => None,
        }
    }
}

proof fn lemma_opening_settled(spoken: Seq<Spoken>, more: Seq<Spoken>)
    requires
        first_reply(spoken) is Some,
    ensures
        opening(spoken + more) == opening(spoken),
        first_reply(spoken + more) == first_reply(spoken),
    decreases more.len(),
{
    reply_follows_request(spoken);
    if more.len() == 0 {
        assert(spoken + more =~= spoken);
    } else {
        lemma_opening_settled(spoken, more.drop_last());
        assert(spoken + more =~= (spoken + more.drop_last()).push(more.last()));
        opening_push(spoken + more.drop_last(), more.last());
        reply_follows_request(spoken + more.drop_last());
    }
}

/// Once a request and a reply were found, no later line changes the preview.
pub proof fn later_lines_change_no_opening(
    lines: Seq<Option<RolloutItem>>,
    more: Seq<Option<RolloutItem>>,
    marker: Seq<char>,
)
    requires
        first_reply(spoken_on(lines, marker)) is Some,
    ensures
        opening(spoken_on(lines + more, marker)) == opening(spoken_on(lines, marker)),
        first_reply(spoken_on(lines + more, marker)) is Some,
    decreases more.len(),
{
    if more.len() == 0 {
        assert(lines + more =~= lines);
    } else {
        later_lines_change_no_opening(lines, more.drop_last(), marker);
        let all = lines + more;
        assert(all.drop_last() =~= lines + more.drop_last());
        let before = spoken_on(all.drop_last(), marker);
        if let Some(item) = all.last() {
            lemma_opening_settled(before, conversation_texts(item, marker));
        }
    }
}

} // verus!
