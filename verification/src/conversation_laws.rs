//! What holds of everything that a rollout is taken to say.
use vstd::prelude::*;

use crate::conversation::{
    ContentItem, ConversationScan, EventMsg, PreviewView, ResponseItem, RolloutItem, Spoken,
    content_preview, content_text, content_texts, conversation_texts, first_assistant,
    first_excerpt, first_reply, first_user, opening, said, spoken_on, user_request,
};
use crate::preview::{excerpt, normalized, truncated};
use crate::preview_laws::excerpt_shows_term;
use crate::text::{
    contains_text, first_occurrence, first_occurrence_is_position, is_blank, is_white_space, join,
    occurs_at, position, position_is_first, trim, words,
};
use crate::text_laws::{
    blank_texts_have_no_words, joining_keeps_words, trimming_takes_white_space_off, words_of_all,
};

verus! {

// ---------------------------------------------------------------------------
// Requests
// ---------------------------------------------------------------------------

/// A message without the marker is a request as a whole: the request has all of
/// its words, in order.
pub proof fn requests_without_a_marker_say_all(message: Seq<char>, marker: Seq<char>)
    requires
        !contains_text(message, marker),
    ensures
        words(user_request(message, marker)) == words(message),
        normalized(user_request(message, marker)) == normalized(message),
        contains_text(message, user_request(message, marker)),
{
    trimming_takes_white_space_off(message);
    let (a, b) = choose|a: int, b: int|
        0 <= a <= b <= message.len() && #[trigger] message.subrange(a, b) == trim(message)
            && is_blank(message.take(a)) && is_blank(message.skip(b));
    assert(occurs_at(message, trim(message), a));
}

/// A message with the marker requests what stands behind the first one, and
/// nothing of what stands before it: the request has the words from there on.
pub proof fn requests_follow_the_first_marker(message: Seq<char>, marker: Seq<char>, at: int)
    requires
        first_occurrence(message, marker, at),
    ensures
        words(user_request(message, marker)) == words(message.skip(at + marker.len())),
        contains_text(message.skip(at + marker.len()), user_request(message, marker)),
{
    first_occurrence_is_position(message, marker, at);
    let rest = message.skip(at + marker.len());
    trimming_takes_white_space_off(rest);
    let (a, b) = choose|a: int, b: int|
        0 <= a <= b <= rest.len() && #[trigger] rest.subrange(a, b) == trim(rest) && is_blank(
            rest.take(a),
        ) && is_blank(rest.skip(b));
    assert(occurs_at(rest, trim(rest), a));
}

/// A request neither starts nor ends with white space.
pub proof fn requests_are_trimmed(message: Seq<char>, marker: Seq<char>)
    ensures
        user_request(message, marker).len() > 0 ==> !is_white_space(
            user_request(message, marker)[0],
        ) && !is_white_space(user_request(message, marker).last()),
{
    trimming_takes_white_space_off(message);
    if contains_text(message, marker) {
        position_is_first(message, marker);
        let at = position(message, marker)->0;
        trimming_takes_white_space_off(message.skip(at + marker.len()));
    }
}

// ---------------------------------------------------------------------------
// Who says what
// ---------------------------------------------------------------------------

/// `spoken` is one text of these words, by the user or by the assistant, or
/// nothing where there are no words.
pub open spec fn says(spoken: Seq<Spoken>, by_user: bool, all: Seq<Seq<char>>) -> bool {
    if all.len() == 0 {
        spoken.len() == 0
    } else {
        &&& spoken.len() == 1
        &&& match spoken[0] {
            Spoken::User(text) => by_user && words(text) == all,
            Spoken::Assistant(text) => !by_user && words(text) == all,
        }
    }
}

/// A user message is said by the user: all of its words where it does not hold
/// the marker, else those behind the first marker.
pub proof fn user_messages_are_the_users(message: String, marker: Seq<char>)
    ensures
        ({
            let item = RolloutItem::EventMsg(EventMsg::UserMessage { message });
            &&& !contains_text(message@, marker) ==> says(
                conversation_texts(item, marker),
                true,
                words(message@),
            )
            &&& forall|at: int| #[trigger]
                first_occurrence(message@, marker, at) ==> says(
                    conversation_texts(item, marker),
                    true,
                    words(message@.skip(at + marker.len())),
                )
        }),
{
    let item = RolloutItem::EventMsg(EventMsg::UserMessage { message });
    let request = user_request(message@, marker);
    lemma_trimmed_is_empty_or_says(request, message@, marker);
    if !contains_text(message@, marker) {
        requests_without_a_marker_say_all(message@, marker);
        assert(says(conversation_texts(item, marker), true, words(message@)));
    }
    assert forall|at: int| #[trigger] first_occurrence(message@, marker, at) implies says(
        conversation_texts(item, marker),
        true,
        words(message@.skip(at + marker.len())),
    ) by {
        requests_follow_the_first_marker(message@, marker, at);
    }
}

/// A request is empty exactly if it has no words.
proof fn lemma_trimmed_is_empty_or_says(
    request: Seq<char>,
    message: Seq<char>,
    marker: Seq<char>,
)
    requires
        request == user_request(message, marker),
    ensures
        request.len() == 0 <==> words(request).len() == 0,
{
    requests_are_trimmed(message, marker);
    blank_texts_have_no_words(request);
    if request.len() > 0 {
        assert(!is_white_space(request[0]));
    }
}

/// An agent message is said by the assistant, with all of its words.
pub proof fn agent_messages_are_the_assistants(message: String, marker: Seq<char>)
    ensures
        says(
            conversation_texts(
                RolloutItem::EventMsg(EventMsg::AgentMessage { message }),
                marker,
            ),
            false,
            words(message@),
        ),
{
    trimming_takes_white_space_off(message@);
    blank_texts_have_no_words(message@);
}

/// The words of the texts among pieces of content; images have none.
pub open spec fn content_words(content: Seq<ContentItem>) -> Seq<Seq<char>>
    decreases content.len(),
{
    if content.len() == 0 {
        seq![]
    } else {
        content_words(content.drop_last()) + match content.last() {
            ContentItem::InputText { text } => words(text@),
            ContentItem::OutputText { text } => words(text@),
            ContentItem::InputImage => seq![],
        }
    }
}

proof fn lemma_content_words(content: Seq<ContentItem>)
    ensures
        words_of_all(content_texts(content)) == content_words(content),
    decreases content.len(),
{
    if content.len() > 0 {
        lemma_content_words(content.drop_last());
        let before = content_texts(content.drop_last());
        match content_text(content.last()) {
            Some(text) => {
                assert(before.push(text).drop_last() =~= before);
            },
            None => {
                assert(content_words(content) =~= content_words(content.drop_last()));
            },
        }
    }
}

/// A message of a model response is said by whom its role names, the user or
/// the assistant, with the words of all of its texts, in order. Nobody else's
/// messages are part of the conversation.
pub proof fn response_messages_go_by_role(
    role: String,
    content: Vec<ContentItem>,
    marker: Seq<char>,
)
    ensures
        ({
            let item = RolloutItem::ResponseItem(ResponseItem::Message { role, content });
            let spoken = conversation_texts(item, marker);
            &&& role@ == "user"@ ==> says(spoken, true, content_words(content@))
            &&& role@ == "assistant"@ ==> says(spoken, false, content_words(content@))
            &&& role@ != "user"@ && role@ != "assistant"@ ==> spoken.len() == 0
        }),
{
    reveal_strlit("user");
    reveal_strlit("assistant");
    reveal_strlit(" ");
    assert("user"@.len() != "assistant"@.len());
    assert(" "@ =~= seq![' ']);
    let parts = content_texts(content@);
    let text = join(parts, " "@);
    joining_keeps_words(parts);
    lemma_content_words(content@);
    trimming_takes_white_space_off(text);
    blank_texts_have_no_words(text);
}

/// What a user message or an agent message says stands in it word for word, and
/// the white space around it is taken off.
pub proof fn messages_are_said_word_for_word(message: String, by_user: bool, marker: Seq<char>)
    ensures
        ({
            let item = if by_user {
                RolloutItem::EventMsg(EventMsg::UserMessage { message })
            } else {
                RolloutItem::EventMsg(EventMsg::AgentMessage { message })
            };
            forall|i: int|
                0 <= i < conversation_texts(item, marker).len() ==> {
                    let text = text_of(#[trigger] conversation_texts(item, marker)[i]);
                    &&& contains_text(message@, text)
                    &&& text.len() > 0
                    &&& !is_white_space(text[0])
                    &&& !is_white_space(text.last())
                }
        }),
{
    if by_user {
        requests_are_trimmed(message@, marker);
        if contains_text(message@, marker) {
            position_is_first(message@, marker);
            let at = position(message@, marker)->0;
            requests_follow_the_first_marker(message@, marker, at);
            let rest = message@.skip(at + marker.len());
            let request = user_request(message@, marker);
            let there = choose|there: int| occurs_at(rest, request, there);
            let place = at + marker.len() + there;
            assert(message@.subrange(place, place + request.len()) =~= rest.subrange(
                there,
                there + request.len(),
            ));
            assert(occurs_at(message@, request, place));
        } else {
            requests_without_a_marker_say_all(message@, marker);
        }
    } else {
        trimming_takes_white_space_off(message@);
        let (a, b) = choose|a: int, b: int|
            0 <= a <= b <= message@.len() && #[trigger] message@.subrange(a, b) == trim(message@)
                && is_blank(message@.take(a)) && is_blank(message@.skip(b));
        assert(occurs_at(message@, trim(message@), a));
    }
}

/// Content has its texts piece by piece, as they are and in order; an image has
/// none.
pub proof fn content_goes_piece_by_piece(
    a: Seq<ContentItem>,
    b: Seq<ContentItem>,
    text: String,
)
    ensures
        content_texts(a + b) == content_texts(a) + content_texts(b),
        content_texts(seq![ContentItem::InputText { text }]) == seq![text@],
        content_texts(seq![ContentItem::OutputText { text }]) == seq![text@],
        content_texts(seq![ContentItem::InputImage]).len() == 0,
    decreases b.len(),
{
    let none: Seq<ContentItem> = seq![];
    assert(content_texts(none) =~= seq![]);
    assert(seq![ContentItem::InputText { text }].drop_last() =~= none);
    assert(seq![ContentItem::OutputText { text }].drop_last() =~= none);
    assert(seq![ContentItem::InputImage].drop_last() =~= none);
    assert(content_texts(seq![ContentItem::InputText { text }]) =~= seq![text@]);
    assert(content_texts(seq![ContentItem::OutputText { text }]) =~= seq![text@]);
    if b.len() == 0 {
        assert(a + b =~= a);
        assert(content_texts(b) =~= seq![]);
        assert(content_texts(a) + content_texts(b) =~= content_texts(a));
    } else {
        content_goes_piece_by_piece(a, b.drop_last(), text);
        assert((a + b).drop_last() =~= a + b.drop_last());
        assert((a + b).last() == b.last());
        assert(content_texts(a + b) =~= content_texts(a) + content_texts(b));
    }
}

/// The texts of a response message are said as they are, with one blank between
/// two of them, unless there is nothing in them but white space.
pub proof fn response_texts_are_said_as_they_are(
    role: String,
    content: Vec<ContentItem>,
    marker: Seq<char>,
)
    requires
        role@ == "user"@ || role@ == "assistant"@,
    ensures
        ({
            let item = RolloutItem::ResponseItem(ResponseItem::Message { role, content });
            let spoken = conversation_texts(item, marker);
            let text = join(content_texts(content@), seq![' ']);
            &&& is_blank(text) ==> spoken.len() == 0
            &&& !is_blank(text) ==> spoken.len() == 1 && text_of(spoken[0]) == text
        }),
{
    reveal_strlit("user");
    reveal_strlit("assistant");
    reveal_strlit(" ");
    assert("user"@.len() != "assistant"@.len());
    assert(" "@ =~= seq![' ']);
    let text = join(content_texts(content@), " "@);
    trimming_takes_white_space_off(text);
    blank_texts_have_no_words(text);
    blank_texts_have_no_words(trim(text));
}

/// Nothing else that a rollout records is part of the conversation.
pub proof fn other_records_say_nothing(item: RolloutItem, marker: Seq<char>)
    requires
        match item {
            RolloutItem::EventMsg(EventMsg::Other) => true,
            RolloutItem::EventMsg(_) => false,
            RolloutItem::ResponseItem(ResponseItem::Other) => true,
            RolloutItem::ResponseItem(_) => false,
            _ => true,
        },
    ensures
        conversation_texts(item, marker).len() == 0,
{
}

// ---------------------------------------------------------------------------
// Content previews
// ---------------------------------------------------------------------------

/// The text of what was said.
pub open spec fn text_of(spoken: Spoken) -> Seq<char> {
    match spoken {
        Spoken::User(text) => text,
        Spoken::Assistant(text) => text,
    }
}

proof fn lemma_first_excerpt(spoken: Seq<Spoken>, term: Seq<char>)
    ensures
        first_excerpt(spoken, term) is None <==> forall|i: int|
            0 <= i < spoken.len() ==> excerpt(text_of(#[trigger] spoken[i]), term) is None,
        first_excerpt(spoken, term) matches Some(snippet) ==> exists|i: int|
            {
                &&& 0 <= i < spoken.len()
                &&& excerpt(text_of(#[trigger] spoken[i]), term) == Some(snippet)
                &&& forall|k: int|
                    0 <= k < i ==> excerpt(text_of(#[trigger] spoken[k]), term) is None
            },
    decreases spoken.len(),
{
    if spoken.len() > 0 {
        let rest = spoken.drop_first();
        lemma_first_excerpt(rest, term);
        assert(said(spoken[0]) == text_of(spoken[0]));
        match excerpt(said(spoken[0]), term) {
            Some(found) => {
                assert(excerpt(text_of(spoken[0]), term) == Some(found));
            },
            None => {
                if let Some(snippet) = first_excerpt(rest, term) {
                    let i = choose|i: int|
                        {
                            &&& 0 <= i < rest.len()
                            &&& excerpt(text_of(#[trigger] rest[i]), term) == Some(snippet)
                            &&& forall|k: int|
                                0 <= k < i ==> excerpt(text_of(#[trigger] rest[k]), term) is None
                        };
                    assert(spoken[i + 1] == rest[i]);
                    assert forall|k: int| 0 <= k < i + 1 implies excerpt(
                        text_of(#[trigger] spoken[k]),
                        term,
                    ) is None by {
                        if k > 0 {
                            assert(rest[k - 1] == spoken[k]);
                        }
                    }
                } else {
                    assert forall|i: int| 0 <= i < spoken.len() implies excerpt(
                        text_of(#[trigger] spoken[i]),
                        term,
                    ) is None by {
                        if i > 0 {
                            assert(rest[i - 1] == spoken[i]);
                        }
                    }
                }
            },
        }
    }
}

/// A line has a preview for a term exactly if the term stands in something that
/// was said on it, normalised; a line that does not parse has none. The preview
/// is the excerpt of the first text that holds the term.
pub proof fn what_was_said_is_found(
    item: Option<RolloutItem>,
    term: Seq<char>,
    marker: Seq<char>,
)
    requires
        term.len() > 0,
    ensures
        item is None ==> content_preview(item, term, marker) is None,
        item matches Some(recorded) ==> {
            let spoken = conversation_texts(recorded, marker);
            &&& content_preview(item, term, marker) is Some <==> exists|i: int|
                0 <= i < spoken.len() && contains_text(
                    normalized(text_of(#[trigger] spoken[i])),
                    term,
                )
            &&& content_preview(item, term, marker) is Some ==> exists|i: int|
                {
                    &&& 0 <= i < spoken.len()
                    &&& excerpt(text_of(#[trigger] spoken[i]), term) is Some
                    &&& content_preview(item, term, marker) == Some(
                        PreviewView::ContentMatch {
                            snippet: excerpt(text_of(spoken[i]), term)->0,
                        },
                    )
                    &&& forall|k: int|
                        0 <= k < i ==> !contains_text(
                            normalized(text_of(#[trigger] spoken[k])),
                            term,
                        )
                }
        },
{
    if let Some(recorded) = item {
        let spoken = conversation_texts(recorded, marker);
        lemma_first_excerpt(spoken, term);
        assert forall|i: int| 0 <= i < spoken.len() implies (excerpt(
            text_of(#[trigger] spoken[i]),
            term,
        ) is Some <==> contains_text(normalized(text_of(spoken[i])), term)) by {
            excerpt_shows_term(text_of(spoken[i]), term);
        }
    }
}

/// A term that stands in a user message without a marker, normalised, is found,
/// and no other is; likewise in what the assistant says.
pub proof fn terms_in_messages_are_found(message: String, term: Seq<char>, marker: Seq<char>)
    requires
        term.len() > 0,
    ensures
        !contains_text(message@, marker) ==> (content_preview(
            Some(RolloutItem::EventMsg(EventMsg::UserMessage { message })),
            term,
            marker,
        ) is Some <==> contains_text(normalized(message@), term)),
        content_preview(
            Some(RolloutItem::EventMsg(EventMsg::AgentMessage { message })),
            term,
            marker,
        ) is Some <==> contains_text(normalized(message@), term),
{
    let user = RolloutItem::EventMsg(EventMsg::UserMessage { message });
    let agent = RolloutItem::EventMsg(EventMsg::AgentMessage { message });
    what_was_said_is_found(Some(user), term, marker);
    what_was_said_is_found(Some(agent), term, marker);
    user_messages_are_the_users(message, marker);
    agent_messages_are_the_assistants(message, marker);
    lemma_found_by_words(conversation_texts(agent, marker), false, message@, term);
    if !contains_text(message@, marker) {
        lemma_found_by_words(conversation_texts(user, marker), true, message@, term);
    }
}

proof fn lemma_found_by_words(
    spoken: Seq<Spoken>,
    by_user: bool,
    message: Seq<char>,
    term: Seq<char>,
)
    requires
        says(spoken, by_user, words(message)),
        term.len() > 0,
    ensures
        (exists|i: int|
            0 <= i < spoken.len() && contains_text(
                normalized(text_of(#[trigger] spoken[i])),
                term,
            )) <==> contains_text(normalized(message), term),
{
    if words(message).len() == 0 {
        assert(normalized(message) =~= seq![]);
        if contains_text(normalized(message), term) {
            let at = choose|at: int| occurs_at(normalized(message), term, at);
        }
    } else {
        assert(normalized(text_of(spoken[0])) == normalized(message));
    }
}

// ---------------------------------------------------------------------------
// How a conversation opens
// ---------------------------------------------------------------------------

/// `spoken[i]` is the first text from the user.
pub open spec fn opens_at(spoken: Seq<Spoken>, i: int) -> bool {
    &&& 0 <= i < spoken.len()
    &&& spoken[i] is User
    &&& forall|k: int| 0 <= k < i ==> !(#[trigger] spoken[k] is User)
}

/// `spoken[j]` is the first text from the assistant behind place `i`.
pub open spec fn replies_at(spoken: Seq<Spoken>, i: int, j: int) -> bool {
    &&& i < j < spoken.len()
    &&& spoken[j] is Assistant
    &&& forall|k: int| i < k < j ==> !(#[trigger] spoken[k] is Assistant)
}

/// An opening shows the first text from the user, as a preview shows it, and
/// the first one from the assistant that comes after it. There is an opening
/// exactly if the user says anything, and a reply in it exactly if the
/// assistant says something after that.
pub proof fn openings_show_request_and_reply(spoken: Seq<Spoken>)
    ensures
        opening(spoken) is Some <==> exists|i: int|
            0 <= i < spoken.len() && (#[trigger] spoken[i]) is User,
        forall|i: int| #[trigger]
            opens_at(spoken, i) ==> {
                &&& opening(spoken) matches Some(PreviewView::Conversation { user_message, .. })
                    && user_message == truncated(text_of(spoken[i]))
                &&& (opening(spoken)->0->assistant_message is None) <==> (forall|j: int|
                    i < j < spoken.len() ==> !(#[trigger] spoken[j] is Assistant))
            },
        forall|i: int, j: int|
            #![trigger opens_at(spoken, i), replies_at(spoken, i, j)]
            opens_at(spoken, i) && replies_at(spoken, i, j) ==> {
                opening(spoken)->0->assistant_message == Some(truncated(text_of(spoken[j])))
            },
{
    lemma_first_user(spoken);
    assert forall|i: int| #[trigger] opens_at(spoken, i) implies {
        &&& opening(spoken) matches Some(PreviewView::Conversation { user_message, .. })
            && user_message == truncated(text_of(spoken[i]))
        &&& (opening(spoken)->0->assistant_message is None) <==> (forall|j: int|
            i < j < spoken.len() ==> !(#[trigger] spoken[j] is Assistant))
    } by {
        lemma_first_reply(spoken, i);
    }
    assert forall|i: int, j: int|
        #![trigger opens_at(spoken, i), replies_at(spoken, i, j)]
        opens_at(spoken, i) && replies_at(spoken, i, j) implies opening(
        spoken,
    )->0->assistant_message == Some(truncated(text_of(spoken[j]))) by {
        lemma_first_reply(spoken, i);
    }
}

proof fn lemma_first_user(spoken: Seq<Spoken>)
    ensures
        first_user(spoken) is Some <==> exists|i: int|
            0 <= i < spoken.len() && (#[trigger] spoken[i]) is User,
        forall|i: int| #[trigger]
            opens_at(spoken, i) ==> first_user(spoken) == Some(text_of(spoken[i])),
    decreases spoken.len(),
{
    if spoken.len() > 0 {
        let rest = spoken.drop_first();
        lemma_first_user(rest);
        if spoken[0] is Assistant {
            if first_user(rest) is Some {
                let i = choose|i: int| 0 <= i < rest.len() && (#[trigger] rest[i]) is User;
                assert(spoken[i + 1] is User);
            }
            if exists|i: int| 0 <= i < spoken.len() && (#[trigger] spoken[i]) is User {
                let i = choose|i: int| 0 <= i < spoken.len() && (#[trigger] spoken[i]) is User;
                assert(rest[i - 1] is User);
            }
        }
        assert forall|i: int| #[trigger] opens_at(spoken, i) implies first_user(spoken) == Some(
            text_of(spoken[i]),
        ) by {
            if i > 0 {
                assert(!(spoken[0] is User));
                assert forall|k: int| 0 <= k < i - 1 implies !(#[trigger] rest[k] is User) by {
                    assert(rest[k] == spoken[k + 1]);
                }
                assert(rest[i - 1] == spoken[i]);
                assert(opens_at(rest, i - 1));
            }
        }
    }
}

proof fn lemma_first_assistant(spoken: Seq<Spoken>)
    ensures
        first_assistant(spoken) is None <==> forall|j: int|
            0 <= j < spoken.len() ==> !(#[trigger] spoken[j] is Assistant),
        forall|j: int| #[trigger]
            replies_at(spoken, -1, j) ==> first_assistant(spoken) == Some(text_of(spoken[j])),
    decreases spoken.len(),
{
    if spoken.len() > 0 {
        let rest = spoken.drop_first();
        lemma_first_assistant(rest);
        if spoken[0] is User {
            if first_assistant(rest) is None {
                assert forall|j: int| 0 <= j < spoken.len() implies !(#[trigger] spoken[j]
                    is Assistant) by {
                    if j > 0 {
                        assert(rest[j - 1] == spoken[j]);
                    }
                }
            } else {
                let j = choose|j: int| 0 <= j < rest.len() && (#[trigger] rest[j]) is Assistant;
                assert(spoken[j + 1] is Assistant);
            }
        }
        assert forall|j: int| #[trigger] replies_at(spoken, -1, j) implies first_assistant(spoken)
            == Some(text_of(spoken[j])) by {
            if j > 0 {
                assert(!(spoken[0] is Assistant));
                assert forall|k: int| -1 < k < j - 1 implies !(#[trigger] rest[k]
                    is Assistant) by {
                    assert(rest[k] == spoken[k + 1]);
                }
                assert(rest[j - 1] == spoken[j]);
                assert(replies_at(rest, -1, j - 1));
            }
        }
    }
}

proof fn lemma_first_reply(spoken: Seq<Spoken>, i: int)
    requires
        opens_at(spoken, i),
    ensures
        first_reply(spoken) is None <==> forall|j: int|
            i < j < spoken.len() ==> !(#[trigger] spoken[j] is Assistant),
        forall|j: int| #[trigger]
            replies_at(spoken, i, j) ==> first_reply(spoken) == Some(text_of(spoken[j])),
    decreases spoken.len(),
{
    let rest = spoken.drop_first();
    if i == 0 {
        lemma_first_assistant(rest);
        if first_assistant(rest) is None {
            assert forall|j: int| 0 < j < spoken.len() implies !(#[trigger] spoken[j]
                is Assistant) by {
                assert(rest[j - 1] == spoken[j]);
            }
        } else {
            let j = choose|j: int| 0 <= j < rest.len() && (#[trigger] rest[j]) is Assistant;
            assert(spoken[j + 1] is Assistant);
        }
        assert forall|j: int| #[trigger] replies_at(spoken, i, j) implies first_reply(spoken)
            == Some(text_of(spoken[j])) by {
            assert forall|k: int| -1 < k < j - 1 implies !(#[trigger] rest[k] is Assistant) by {
                assert(rest[k] == spoken[k + 1]);
            }
            assert(rest[j - 1] == spoken[j]);
            assert(replies_at(rest, -1, j - 1));
        }
    } else {
        assert(!(spoken[0] is User));
        assert forall|k: int| 0 <= k < i - 1 implies !(#[trigger] rest[k] is User) by {
            assert(rest[k] == spoken[k + 1]);
        }
        assert(rest[i - 1] == spoken[i]);
        assert(opens_at(rest, i - 1));
        lemma_first_reply(rest, i - 1);
        if first_reply(rest) is None {
            assert forall|j: int| i < j < spoken.len() implies !(#[trigger] spoken[j]
                is Assistant) by {
                assert(rest[j - 1] == spoken[j]);
            }
        } else {
            let j = choose|j: int| i - 1 < j < rest.len() && (#[trigger] rest[j]) is Assistant;
            assert(spoken[j + 1] is Assistant);
        }
        assert forall|j: int| #[trigger] replies_at(spoken, i, j) implies first_reply(spoken)
            == Some(text_of(spoken[j])) by {
            assert forall|k: int| i - 1 < k < j - 1 implies !(#[trigger] rest[k]
                is Assistant) by {
                assert(rest[k] == spoken[k + 1]);
            }
            assert(rest[j - 1] == spoken[j]);
            assert(replies_at(rest, i - 1, j - 1));
        }
    }
}

/// Lines are taken in order: what is said on two lists of lines is what is said
/// on the one and then what is said on the other, and a line that does not
/// parse says nothing.
pub proof fn lines_are_said_in_order(
    a: Seq<Option<RolloutItem>>,
    b: Seq<Option<RolloutItem>>,
    item: RolloutItem,
    marker: Seq<char>,
)
    ensures
        spoken_on(a + b, marker) == spoken_on(a, marker) + spoken_on(b, marker),
        spoken_on(seq![Some(item)], marker) == conversation_texts(item, marker),
        spoken_on(seq![None], marker).len() == 0,
    decreases b.len(),
{
    let none: Seq<Option<RolloutItem>> = seq![];
    assert(spoken_on(none, marker) =~= seq![]);
    assert(seq![Some(item)].drop_last() =~= none);
    assert(seq![None::<RolloutItem>].drop_last() =~= none);
    assert(spoken_on(seq![Some(item)], marker) =~= conversation_texts(item, marker));
    if b.len() == 0 {
        assert(a + b =~= a);
        assert(spoken_on(a, marker) + spoken_on(b, marker) =~= spoken_on(a, marker));
    } else {
        lines_are_said_in_order(a, b.drop_last(), item, marker);
        assert((a + b).drop_last() =~= a + b.drop_last());
        assert((a + b).last() == b.last());
        assert(spoken_on(a + b, marker) =~= spoken_on(a, marker) + spoken_on(b, marker));
    }
}

/// Reading goes on exactly until the assistant has said something after the
/// user, or 400 lines were read.
pub proof fn reading_stops_at_the_reply(scan: ConversationScan)
    ensures
        scan.is_open() <==> scan.lines().len() < 400 && !(exists|i: int, j: int|
            0 <= i < j < scan.spoken().len() && (#[trigger] scan.spoken()[i]) is User && (
            #[trigger] scan.spoken()[j]) is Assistant),
{
    let spoken = scan.spoken();
    lemma_reply_exists(spoken);
}

proof fn lemma_reply_exists(spoken: Seq<Spoken>)
    ensures
        first_reply(spoken) is Some <==> exists|i: int, j: int|
            0 <= i < j < spoken.len() && (#[trigger] spoken[i]) is User && (#[trigger] spoken[j])
                is Assistant,
    decreases spoken.len(),
{
    if spoken.len() > 0 {
        let rest = spoken.drop_first();
        if spoken[0] is User {
            lemma_first_assistant(rest);
            if first_assistant(rest) is Some {
                let j = choose|j: int| 0 <= j < rest.len() && (#[trigger] rest[j]) is Assistant;
                assert(spoken[j + 1] is Assistant);
            } else {
                assert forall|i: int, j: int|
                    0 <= i < j < spoken.len() && (#[trigger] spoken[i]) is User implies !((
                #[trigger] spoken[j]) is Assistant) by {
                    assert(rest[j - 1] == spoken[j]);
                }
            }
        } else {
            lemma_reply_exists(rest);
            if first_reply(rest) is Some {
                let (i, j) = choose|i: int, j: int|
                    0 <= i < j < rest.len() && (#[trigger] rest[i]) is User && (#[trigger] rest[j])
                        is Assistant;
                assert(spoken[i + 1] is User && spoken[j + 1] is Assistant);
            }
            if exists|i: int, j: int|
                0 <= i < j < spoken.len() && (#[trigger] spoken[i]) is User && (
                #[trigger] spoken[j]) is Assistant {
                let (i, j) = choose|i: int, j: int|
                    0 <= i < j < spoken.len() && (#[trigger] spoken[i]) is User && (
                    #[trigger] spoken[j]) is Assistant;
                assert(rest[i - 1] is User && rest[j - 1] is Assistant);
            }
        }
    }
}

} // verus!
