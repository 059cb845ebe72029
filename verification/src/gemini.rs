//! The museum guide: what it is asked, and what is made of its answers.

use crate::base64_text::{base64_len, base64_text, decode_base64, encode_base64};
use crate::paths::text_view;
use crate::text::{begins_with, join, joined, starts_with, texts};
use vstd::prelude::*;
use vstd::string::*;

verus! {

/// Why a text is not JSON.
#[verifier::external_type_specification]
#[verifier::external_body]
pub struct ExJsonError(serde_json::Error);

/// A question and its answer.
#[derive(Debug)]
pub struct Exchange {
    pub user_message: String,
    pub assistant_response: String,
}

/// A guide to one scene, with what was said so far.
#[derive(Debug)]
pub struct GeminiClient {
    pub system_instruction: String,
    pub keywords: Vec<String>,
    pub conversation: Vec<Exchange>,
}

/// What the guide answers.
#[derive(Debug)]
pub struct GeminiResponse {
    pub audio_output: Vec<u8>,
    pub text_output: String,
    pub keywords: Vec<String>,
}

/// What the guide is sent: the turns of the conversation, oldest first, and the new
/// question last.
#[derive(Debug)]
pub struct GuideRequest {
    pub system_instruction: String,
    pub response_mime_type: String,
    /// What the answer has to look like, as a JSON schema.
    pub response_schema: String,
    pub turns: Vec<Exchange>,
    pub audio: String,
    pub audio_format: String,
}

/// What a conversation holds, as pairs of question and answer.
pub open spec fn exchanges(turns: Seq<Exchange>) -> Seq<(Seq<char>, Seq<char>)> {
    turns.map_values(|e: Exchange| (e.user_message@, e.assistant_response@))
}

/// What the guide is told to be, before the list of keywords.
pub open spec fn persona_head() -> Seq<char> {
    "You are a professional museum guide. You answer questions based on the provided audio input and the information about the artist and art provided above. Respond in JSON format according to the specified schema. Keep your answers concise and informative. First, transcribe the audio input faithfully. You select keywords relevant to the question and your response from the provided list: "@
}

/// What the guide is told to be, behind the list of keywords.
pub open spec fn persona_tail() -> Seq<char> {
    ". Try to only refer to one keyword in each answer. If you are talking about the artist or the piece in general, select the option nothing."@
}

/// What an answer has to look like, as a JSON schema.
pub open spec fn reply_schema() -> Seq<char> {
    "{\"type\":\"object\",\"properties\":{\"text_response\":{\"type\":\"string\",\"description\":\"A natural language response.\"},\"audio_transcript\":{\"type\":\"string\",\"description\":\"The faithful transcription of the latest user audio message.\"},\"selected_keywords\":{\"type\":\"array\",\"description\":\"List of extracted or chosen keywords.\",\"items\":{\"type\":\"string\"}}},\"required\":[\"text_response\",\"selected_keywords\",\"audio_transcript\"]}"@
}

/// What the guide is told: about the scene first, and then how to answer.
pub open spec fn instruction(about: Seq<char>, keywords: Seq<Seq<char>>) -> Seq<char> {
    about + "\n\n--- INSTRUCTIONS ---\n"@ + (persona_head() + joined(keywords, ", "@)
        + persona_tail())
}

impl GeminiClient {
    /// A guide that has not been asked anything.
    pub fn new(system_instruction: &str, keywords: Vec<String>) -> (r: Self)
        ensures
            r.system_instruction@ == system_instruction@,
            r.keywords == keywords,
            r.conversation@.len() == 0,
    {
        GeminiClient {
            system_instruction: system_instruction.to_owned(),
            keywords,
            conversation: Vec::new(),
        }
    }

    /// Everything that the guide is told before the conversation.
    pub fn combined_instruction(&self) -> (r: String)
        ensures
            r@ == instruction(self.system_instruction@, texts(self.keywords@)),
    {
        let mut persona: String = "You are a professional museum guide. You answer questions based on the provided audio input and the information about the artist and art provided above. Respond in JSON format according to the specified schema. Keep your answers concise and informative. First, transcribe the audio input faithfully. You select keywords relevant to the question and your response from the provided list: ".to_owned();
        let list: String = join(&self.keywords, ", ");
        persona.append(list.as_str());
        persona.append(
            ". Try to only refer to one keyword in each answer. If you are talking about the artist or the piece in general, select the option nothing.",
        );
        let mut out: String = self.system_instruction.clone();
        out.append("\n\n--- INSTRUCTIONS ---\n");
        out.append(persona.as_str());
        out
    }

    /// Makes up what the guide is sent for a new question.
    pub fn ask_guide(&self, raw_audio_buffer: Vec<u8>, audio_format: &str) -> (r: GuideRequest)
        requires
            base64_len(raw_audio_buffer@.len() as int) <= isize::MAX,
        ensures
            r.system_instruction@ == instruction(self.system_instruction@, texts(self.keywords@)),
            r.response_mime_type@ == "application/json"@,
            r.response_schema@ == reply_schema(),
            exchanges(r.turns@) == exchanges(self.conversation@),
            r.audio@ == base64_text(raw_audio_buffer@),
            r.audio_format@ == audio_format@,
    {
        let audio: String = encode_base64(&raw_audio_buffer);
        let mut turns: Vec<Exchange> = Vec::new();
        let mut i: usize = 0;
        let ghost all = exchanges(self.conversation@);
        while i < self.conversation.len()
            invariant
                i <= self.conversation.len(),
                all == exchanges(self.conversation@),
                exchanges(turns@) == all.take(i as int),
            decreases self.conversation.len() - i,
        {
            let turn = Exchange {
                user_message: self.conversation[i].user_message.clone(),
                assistant_response: self.conversation[i].assistant_response.clone(),
            };
            let ghost before = turns@;
            turns.push(turn);
            assert(exchanges(turns@) == exchanges(before).push(all[i as int]));
            i = i + 1;
            assert(all.take(i as int) == all.take(i - 1).push(all[i - 1]));
        }
        assert(all.take(all.len() as int) == all);
        GuideRequest {
            system_instruction: self.combined_instruction(),
            response_mime_type: "application/json".to_owned(),
            response_schema: "{\"type\":\"object\",\"properties\":{\"text_response\":{\"type\":\"string\",\"description\":\"A natural language response.\"},\"audio_transcript\":{\"type\":\"string\",\"description\":\"The faithful transcription of the latest user audio message.\"},\"selected_keywords\":{\"type\":\"array\",\"description\":\"List of extracted or chosen keywords.\",\"items\":{\"type\":\"string\"}}},\"required\":[\"text_response\",\"selected_keywords\",\"audio_transcript\"]}".to_owned(),
            turns,
            audio,
            audio_format: audio_format.to_owned(),
        }
    }

    /// Takes in an answer: it becomes the last turn of the conversation, and its text is
    /// what has to be spoken.
    pub fn record(&mut self, reply: &GuideReply) -> (r: Result<String, GuideError>)
        ensures
            final(self).system_instruction == old(self).system_instruction,
            final(self).keywords == old(self).keywords,
            exchanges(final(self).conversation@) == after_reply(
                exchanges(old(self).conversation@),
                text_view(reply.text_response),
                text_view(reply.audio_transcript),
            ),
            match (text_view(reply.text_response), text_view(reply.audio_transcript)) {
                (None, _) => r matches Err(GuideError::MissingField { field }) && field
                    == ReplyField::TextResponse,
                (Some(_), None) => r matches Err(GuideError::MissingField { field }) && field
                    == ReplyField::AudioTranscript,
                (Some(answer), Some(_)) => r matches Ok(text) && text@ == answer,
            },
    {
        let answer: String = match &reply.text_response {
            Some(text) => text.clone(),
            None => {
                return Err(GuideError::MissingField { field: ReplyField::TextResponse });
            },
        };
        let question: String = match &reply.audio_transcript {
            Some(text) => text.clone(),
            None => {
                return Err(GuideError::MissingField { field: ReplyField::AudioTranscript });
            },
        };
        self.conversation.push(
            Exchange { user_message: question, assistant_response: answer.clone() },
        );
        assert(exchanges(self.conversation@) == exchanges(old(self).conversation@).push(
            (question@, answer@),
        ));
        Ok(answer)
    }

    /// Takes in what the guide answered, as it came: it is read, it becomes the last turn
    /// of the conversation, and only now is its text handed on to be spoken. So the guide
    /// remembers the answer whatever becomes of speaking it.
    pub fn take_reply(&mut self, text: &str) -> (r: Result<PendingAnswer, GuideError>)
        ensures
            final(self).system_instruction == old(self).system_instruction,
            final(self).keywords == old(self).keywords,
            exchanges(final(self).conversation@) == after_reply(
                exchanges(old(self).conversation@),
                answer_in(text@),
                question_in(text@),
            ),
            match r {
                Ok(pending) => {
                    &&& question_in(text@) is Some
                    &&& answer_in(text@) == Some(pending.answer@)
                    &&& items_view(pending.reply.selected_keywords) == items_in(text@)
                    &&& speaks(pending.speech, pending.answer@)
                },
                Err(GuideError::BadJson { .. }) => !is_json(text@),
                Err(GuideError::MissingField { field }) => is_json(text@) && match field {
                    ReplyField::TextResponse => answer_in(text@) is None,
                    ReplyField::AudioTranscript => answer_in(text@) is Some && question_in(
                        text@,
                    ) is None,
                    ReplyField::SelectedKeywords => false,
                },
            },
    {
        let reply: GuideReply = match parse_reply(text) {
            Ok(reply) => reply,
            Err(error) => {
                return Err(error);
            },
        };
        let answer: String = match self.record(&reply) {
            Ok(answer) => answer,
            Err(error) => {
                return Err(error);
            },
        };
        let speech: SpeechRequest = generate_speech(answer.as_str());
        Ok(PendingAnswer { reply, answer, speech })
    }
}

/// Whether `text` can be read at all.
pub open spec fn is_json(text: Seq<char>) -> bool {
    json_member(text, "text_response"@) is Some
}

/// What the guide answers in `text`.
pub open spec fn answer_in(text: Seq<char>) -> Option<Seq<char>> {
    match json_member(text, "text_response"@) {
        Some(member) => member_text(member),
        None => None,
    }
}

/// What the guide heard of the question, in `text`.
pub open spec fn question_in(text: Seq<char>) -> Option<Seq<char>> {
    match json_member(text, "audio_transcript"@) {
        Some(member) => member_text(member),
        None => None,
    }
}

/// The keywords in `text`.
pub open spec fn items_in(text: Seq<char>) -> Option<Seq<Option<Seq<char>>>> {
    match json_member(text, "selected_keywords"@) {
        Some(member) => member_items(member),
        None => None,
    }
}

/// An answer that was taken in and has to be spoken.
#[derive(Debug)]
pub struct PendingAnswer {
    pub reply: GuideReply,
    pub answer: String,
    pub speech: SpeechRequest,
}

/// Why there is no complete answer, though it was taken in.
#[derive(Debug)]
pub enum AnswerError {
    /// There is nothing to hear.
    Speech { error: SpeechError },
    /// The answer itself cannot be used.
    Reply { error: GuideError },
}

impl PendingAnswer {
    /// Completes the answer with what the speaker sent. The sound is looked for first, and
    /// the keywords only behind it.
    pub fn complete(self, parts: &Vec<SpeechPart>) -> (r: Result<GeminiResponse, AnswerError>)
        ensures
            match r {
                Ok(response) => {
                    &&& response.text_output == self.answer
                    &&& first_audio(parts@) == Some(base64_text(response.audio_output@))
                    &&& keywords_of(items_view(self.reply.selected_keywords)) == Some(
                        texts(response.keywords@),
                    )
                },
                Err(AnswerError::Speech { error: SpeechError::NoAudio }) => first_audio(
                    parts@,
                ) is None,
                Err(AnswerError::Speech { error: SpeechError::Undecodable { .. } }) => {
                    &&& first_audio(parts@) is Some
                    &&& forall|bytes: Seq<u8>| #[trigger]
                        base64_text(bytes) != first_audio(parts@)->0
                },
                Err(AnswerError::Reply { error }) => {
                    &&& error matches GuideError::MissingField { field } && field
                        == ReplyField::SelectedKeywords
                    &&& exists|bytes: Seq<u8>| first_audio(parts@) == Some(
                        #[trigger] base64_text(bytes),
                    )
                    &&& keywords_of(items_view(self.reply.selected_keywords)) is None
                },
            },
    {
        let audio: Vec<u8> = match find_speech(parts) {
            Ok(audio) => audio,
            Err(error) => {
                return Err(AnswerError::Speech { error });
            },
        };
        assert(first_audio(parts@) == Some(base64_text(audio@)));
        match respond(self.reply, self.answer, audio) {
            Ok(response) => Ok(response),
            Err(error) => Err(AnswerError::Reply { error }),
        }
    }
}

/// A conversation once an answer came. It becomes the last turn, if both the answer and
/// what was heard of the question are there.
pub open spec fn after_reply(
    turns: Seq<(Seq<char>, Seq<char>)>,
    answer: Option<Seq<char>>,
    question: Option<Seq<char>>,
) -> Seq<(Seq<char>, Seq<char>)> {
    match (answer, question) {
        (Some(a), Some(q)) => turns.push((q, a)),
        _ => turns,
    }
}

/// A conversation after all of `replies`, each with its answer and what was heard of the
/// question.
pub open spec fn after_replies(
    turns: Seq<(Seq<char>, Seq<char>)>,
    replies: Seq<(Option<Seq<char>>, Option<Seq<char>>)>,
) -> Seq<(Seq<char>, Seq<char>)>
    decreases replies.len(),
{
    if replies.len() == 0 {
        turns
    } else {
        let (answer, question) = replies.last();
        after_reply(after_replies(turns, replies.drop_last()), answer, question)
    }
}

/// The guide remembers every complete answer, the oldest first, behind what it remembered
/// before.
pub proof fn law_answers_are_remembered(
    turns: Seq<(Seq<char>, Seq<char>)>,
    replies: Seq<(Option<Seq<char>>, Option<Seq<char>>)>,
)
    ensures
        after_replies(turns, replies) == turns + replies.filter(
            |r: (Option<Seq<char>>, Option<Seq<char>>)| r.0 is Some && r.1 is Some,
        ).map_values(|r: (Option<Seq<char>>, Option<Seq<char>>)| (r.1->0, r.0->0)),
    decreases replies.len(),
{
    let complete = |r: (Option<Seq<char>>, Option<Seq<char>>)| r.0 is Some && r.1 is Some;
    let turn = |r: (Option<Seq<char>>, Option<Seq<char>>)| (r.1->0, r.0->0);
    reveal(Seq::filter);
    if replies.len() > 0 {
        let before = replies.drop_last();
        law_answers_are_remembered(turns, before);
        let kept = before.filter(complete);
        if complete(replies.last()) {
            assert(kept.push(replies.last()).map_values(turn) == kept.map_values(turn).push(
                turn(replies.last()),
            ));
        }
    } else {
        assert(replies.filter(complete).map_values(turn) == Seq::<(Seq<char>, Seq<char>)>::empty());
    }
}

/// The parts of an answer that have to be there.
#[derive(Clone, Copy, PartialEq, Eq, Structural, Debug)]
pub enum ReplyField {
    TextResponse,
    AudioTranscript,
    SelectedKeywords,
}

/// Why an answer of the guide cannot be used.
#[derive(Debug)]
pub enum GuideError {
    /// It is not JSON.
    BadJson { error: serde_json::Error },
    /// A part of it is missing, or is not of the kind it has to be.
    MissingField { field: ReplyField },
}

/// What the guide answered, as far as it is of the kind it has to be.
#[derive(Debug)]
pub struct GuideReply {
    pub text_response: Option<String>,
    pub audio_transcript: Option<String>,
    pub selected_keywords: Option<Vec<Option<String>>>,
}

/// A member of a JSON object.
#[derive(Debug)]
pub enum Member {
    /// A text.
    Text { text: String },
    /// A list; of its items only the texts are kept.
    List { items: Vec<Option<String>> },
    /// Anything else, or nothing.
    Other,
}

/// What a member of a JSON object is.
pub enum MemberView {
    Text { text: Seq<char> },
    List { items: Seq<Option<Seq<char>>> },
    Other,
}

impl View for Member {
    type V = MemberView;

    open spec fn view(&self) -> MemberView {
        match self {
            Member::Text { text } => MemberView::Text { text: text@ },
            Member::List { items } => MemberView::List { items: option_texts(items@) },
            Member::Other => MemberView::Other,
        }
    }
}

/// The texts of `items`.
pub open spec fn option_texts(items: Seq<Option<String>>) -> Seq<Option<Seq<char>>> {
    items.map_values(|s: Option<String>| text_view(s))
}

/// What `serde_json` finds under `key` when it reads `text`; nothing, if `text` is not
/// JSON.
pub uninterp spec fn json_member(text: Seq<char>, key: Seq<char>) -> Option<MemberView>;

/// `serde_json::from_str` to a `serde_json::Value`, which is looked up by each key and
/// told apart by its kind. A text is JSON or it is not, whatever key is asked for.
#[verifier::external_body]
fn json_members(text: &str, keys: &Vec<&str>) -> (r: Result<Vec<Member>, serde_json::Error>)
    ensures
        match r {
            Ok(members) => members@.len() == keys@.len() && forall|i: int|
                0 <= i < keys@.len() ==> json_member(text@, (#[trigger] keys@[i])@) == Some(
                    members@[i]@,
                ),
            Err(_) => forall|key: Seq<char>| #[trigger] json_member(text@, key) is None,
        },
{
    let value: serde_json::Value = serde_json::from_str(text)?;
    Ok(keys.iter().map(|key| match &value[*key] {
        serde_json::Value::String(s) => Member::Text { text: s.clone() },
        serde_json::Value::Array(items) => Member::List {
            items: items.iter().map(|v| v.as_str().map(str::to_string)).collect(),
        },
        _ => Member::Other,
    }).collect())
}

/// The text of a member that is one.
pub open spec fn member_text(member: MemberView) -> Option<Seq<char>> {
    match member {
        MemberView::Text { text } => Some(text),
        _ => None,
    }
}

/// The items of a member that is a list.
pub open spec fn member_items(member: MemberView) -> Option<Seq<Option<Seq<char>>>> {
    match member {
        MemberView::List { items } => Some(items),
        _ => None,
    }
}

/// The items of an optional list.
pub open spec fn items_view(items: Option<Vec<Option<String>>>) -> Option<Seq<Option<Seq<char>>>> {
    match items {
        Some(list) => Some(option_texts(list@)),
        None => None,
    }
}

/// The text of a member that is one.
pub fn into_text(member: Member) -> (r: Option<String>)
    ensures
        text_view(r) == member_text(member@),
{
    match member {
        Member::Text { text } => Some(text),
        _ => None,
    }
}

/// The items of a member that is a list.
pub fn into_items(member: Member) -> (r: Option<Vec<Option<String>>>)
    ensures
        items_view(r) == member_items(member@),
{
    match member {
        Member::List { items } => Some(items),
        _ => None,
    }
}

/// Reads an answer of the guide.
pub fn parse_reply(text: &str) -> (r: Result<GuideReply, GuideError>)
    ensures
        match r {
            Ok(reply) => {
                &&& json_member(text@, "text_response"@) matches Some(m) && text_view(
                    reply.text_response,
                ) == member_text(m)
                &&& json_member(text@, "audio_transcript"@) matches Some(m) && text_view(
                    reply.audio_transcript,
                ) == member_text(m)
                &&& json_member(text@, "selected_keywords"@) matches Some(m) && items_view(
                    reply.selected_keywords,
                ) == member_items(m)
            },
            Err(e) => e is BadJson && forall|key: Seq<char>| #[trigger]
                json_member(text@, key) is None,
        },
{
    let keys = vec!["text_response", "audio_transcript", "selected_keywords"];
    match json_members(text, &keys) {
        Ok(members) => {
            let mut members = members;
            assert(keys@[0]@ == "text_response"@);
            assert(keys@[1]@ == "audio_transcript"@);
            assert(keys@[2]@ == "selected_keywords"@);
            let selected_keywords = into_items(members.remove(2));
            let audio_transcript = into_text(members.remove(1));
            let text_response = into_text(members.remove(0));
            Ok(GuideReply { text_response, audio_transcript, selected_keywords })
        },
        Err(error) => Err(GuideError::BadJson { error }),
    }
}

/// The texts of `items`, if all of them are texts.
pub open spec fn all_texts(items: Seq<Option<Seq<char>>>) -> Option<Seq<Seq<char>>> {
    if forall|i: int| 0 <= i < items.len() ==> (#[trigger] items[i]) is Some {
        Some(items.map_values(|s: Option<Seq<char>>| s->0))
    } else {
        None
    }
}

/// The keywords of an answer.
pub open spec fn keywords_of(items: Option<Seq<Option<Seq<char>>>>) -> Option<Seq<Seq<char>>> {
    match items {
        Some(list) => all_texts(list),
        None => None,
    }
}

/// Completes an answer once its text was spoken.
pub fn respond(reply: GuideReply, text_output: String, audio_output: Vec<u8>) -> (r: Result<
    GeminiResponse,
    GuideError,
>)
    ensures
        match keywords_of(items_view(reply.selected_keywords)) {
            Some(words) => r matches Ok(response) && response.audio_output == audio_output
                && response.text_output == text_output && texts(response.keywords@) == words,
            None => r matches Err(GuideError::MissingField { field }) && field
                == ReplyField::SelectedKeywords,
        },
{
    let items = match reply.selected_keywords {
        Some(items) => items,
        None => {
            return Err(GuideError::MissingField { field: ReplyField::SelectedKeywords });
        },
    };
    let ghost all = option_texts(items@);
    let mut keywords: Vec<String> = Vec::new();
    let mut i: usize = 0;
    while i < items.len()
        invariant
            i <= items.len(),
            all == option_texts(items@),
            items_view(reply.selected_keywords) == Some(all),
            keywords.len() == i,
            forall|j: int| 0 <= j < i ==> #[trigger] all[j] == Some(keywords@[j]@),
        decreases items.len() - i,
    {
        let ghost before = keywords@;
        match &items[i] {
            Some(word) => {
                keywords.push(word.clone());
            },
            None => {
                assert(all[i as int] is None);
                return Err(GuideError::MissingField { field: ReplyField::SelectedKeywords });
            },
        }
        i = i + 1;
    }
    assert(texts(keywords@) == all.map_values(|s: Option<Seq<char>>| s->0));
    Ok(GeminiResponse { audio_output, text_output, keywords })
}

/// What is asked for when a text has to be spoken.
#[derive(Debug)]
pub struct SpeechRequest {
    pub user_message: String,
    pub response_modality: String,
    pub voice_name: String,
}

/// Whether `request` asks for `text` to be spoken.
pub open spec fn speaks(request: SpeechRequest, text: Seq<char>) -> bool {
    &&& request.user_message@ == text
    &&& request.response_modality@ == "AUDIO"@
    &&& request.voice_name@ == "Puck"@
}

/// Makes up what the speaker is sent.
pub fn generate_speech(text_input: &str) -> (r: SpeechRequest)
    ensures
        speaks(r, text_input@),
{
    SpeechRequest {
        user_message: text_input.to_owned(),
        response_modality: "AUDIO".to_owned(),
        voice_name: "Puck".to_owned(),
    }
}

/// A part of what the speaker answers.
#[derive(Debug)]
pub enum SpeechPart {
    /// Data of some kind, in base 64.
    InlineData { mime_type: String, data: String },
    /// Anything else.
    Other,
}

/// Why there is nothing to hear.
#[derive(Debug)]
pub enum SpeechError {
    /// The sound is not base 64.
    Undecodable { error: base64::DecodeError },
    /// There is no sound.
    NoAudio,
}

/// Whether `part` is sound.
pub open spec fn is_audio(part: SpeechPart) -> bool {
    part matches SpeechPart::InlineData { mime_type, .. } && begins_with(mime_type@, "audio/"@)
}

/// The first sound among `parts`, in base 64.
pub open spec fn first_audio(parts: Seq<SpeechPart>) -> Option<Seq<char>>
    decreases parts.len(),
{
    if parts.len() == 0 {
        None
    } else if is_audio(parts[0]) {
        Some(parts[0]->data@)
    } else {
        first_audio(parts.skip(1))
    }
}

/// Finds the sound in what the speaker answers. `parts` are those of all candidates, one
/// candidate after the other.
pub fn find_speech(parts: &Vec<SpeechPart>) -> (r: Result<Vec<u8>, SpeechError>)
    ensures
        match first_audio(parts@) {
            Some(data) => match r {
                Ok(bytes) => base64_text(bytes@) == data,
                Err(e) => e is Undecodable && forall|raw: Seq<u8>| #[trigger]
                    base64_text(raw) != data,
            },
            None => r matches Err(e) && e is NoAudio,
        },
{
    let mut i: usize = 0;
    assert(parts@.skip(0) == parts@);
    while i < parts.len()
        invariant
            i <= parts.len(),
            first_audio(parts@) == first_audio(parts@.skip(i as int)),
        decreases parts.len() - i,
    {
        assert(parts@.skip(i as int)[0] == parts@[i as int]);
        assert(parts@.skip(i as int).skip(1) == parts@.skip(i + 1));
        match &parts[i] {
            SpeechPart::InlineData { mime_type, data } => {
                if starts_with(mime_type.as_str(), "audio/") {
                    return match decode_base64(data.as_str()) {
                        Ok(bytes) => Ok(bytes),
                        Err(error) => Err(SpeechError::Undecodable { error }),
                    };
                }
            },
            SpeechPart::Other => {},
        }
        i = i + 1;
    }
    Err(SpeechError::NoAudio)
}

/// The sound that is played is that of the first part that is data of a kind whose name
/// begins with `audio/`; there is none exactly if no part is of such a kind.
pub proof fn law_first_sound(parts: Seq<SpeechPart>, i: int)
    ensures
        0 <= i < parts.len() ==> (parts[i] matches SpeechPart::InlineData { mime_type, data } ==> (
        begins_with(mime_type@, "audio/"@) && (forall|k: int|
            0 <= k < i ==> !sounds(#[trigger] parts[k])) ==> first_audio(parts) == Some(data@))),
        first_audio(parts) is None <==> forall|k: int|
            0 <= k < parts.len() ==> !sounds(#[trigger] parts[k]),
    decreases parts.len(),
{
    if parts.len() > 0 {
        let rest = parts.skip(1);
        law_first_sound(rest, i - 1);
        assert forall|k: int| 0 <= k < rest.len() implies rest[k] == #[trigger] parts[k + 1] by {}
        assert forall|k: int| 0 < k < parts.len() implies #[trigger] parts[k] == rest[k - 1] by {}
        assert(sounds(parts[0]) <==> is_audio(parts[0]));
        if first_audio(parts) is None {
            assert forall|k: int| 0 <= k < parts.len() implies !sounds(#[trigger] parts[k]) by {
                if k > 0 {
                    assert(!sounds(rest[k - 1]));
                }
            }
        }
    }
}

/// Whether a part can be heard.
pub open spec fn sounds(part: SpeechPart) -> bool {
    match part {
        SpeechPart::InlineData { mime_type, .. } => begins_with(mime_type@, "audio/"@),
        SpeechPart::Other => false,
    }
}

/// The keywords of an answer are all of its items, in order, if each of them is a text; one
/// item that is not, or no list at all, leaves no keywords.
pub proof fn law_keywords_of_answer(items: Option<Seq<Option<Seq<char>>>>, i: int)
    ensures
        keywords_of(items) is Some <==> items is Some && forall|k: int|
            0 <= k < items->0.len() ==> (#[trigger] items->0[k]) is Some,
        keywords_of(items) matches Some(words) ==> {
            &&& words.len() == items->0.len()
            &&& 0 <= i < words.len() ==> items->0[i] == Some(words[i])
        },
{
    if let Some(words) = keywords_of(items) {
        if 0 <= i < words.len() {
            assert(items->0[i] is Some);
        }
    }
}

/// An answer is read from the member `text_response`, the question from `audio_transcript`
/// and the keywords from `selected_keywords`. Members of another kind are as good as none.
pub proof fn law_members_of_reply(text: Seq<char>, words: Seq<char>)
    ensures
        answer_in(text) == Some(words) <==> json_member(text, "text_response"@) == Some(
            MemberView::Text { text: words },
        ),
        question_in(text) == Some(words) <==> json_member(text, "audio_transcript"@) == Some(
            MemberView::Text { text: words },
        ),
        items_in(text) matches Some(items) ==> json_member(text, "selected_keywords"@) == Some(
            MemberView::List { items },
        ),
        json_member(text, "selected_keywords"@) matches Some(MemberView::List { items })
            ==> items_in(text) == Some(items),
{
}

/// A complete answer is remembered behind everything that was said before, the question
/// first; one of which a part is missing changes nothing.
pub proof fn law_answer_is_remembered(
    turns: Seq<(Seq<char>, Seq<char>)>,
    answer: Seq<char>,
    question: Seq<char>,
    i: int,
)
    ensures
        ({
            let after = after_reply(turns, Some(answer), Some(question));
            &&& after.len() == turns.len() + 1
            &&& after.last().0 == question
            &&& after.last().1 == answer
            &&& 0 <= i < turns.len() ==> after[i] == turns[i]
        }),
        after_reply(turns, None, Some(question)) == turns,
        after_reply(turns, Some(answer), None) == turns,
        after_reply(turns, None, None) == turns,
{
}

/// The guide is told about the scene before anything else, and gets all keywords, with a
/// comma between each two of them, in the middle of what it is told about answering.
pub proof fn law_instruction(about: Seq<char>, keywords: Seq<Seq<char>>, more: Seq<char>)
    ensures
        begins_with(instruction(about, keywords), about + "\n\n--- INSTRUCTIONS ---\n"@),
        keywords.len() > 0 ==> {
            let k = (about.len() + "\n\n--- INSTRUCTIONS ---\n"@.len() + persona_head().len()) as int;
            let list = joined(keywords, ", "@);
            &&& instruction(about, keywords.push(more)) == instruction(about, keywords).take(
                k + list.len(),
            ) + ", "@ + more + instruction(about, keywords).skip(k + list.len())
        },
{
    let mark = "\n\n--- INSTRUCTIONS ---\n"@;
    let all = instruction(about, keywords);
    let list = joined(keywords, ", "@);
    assert(all.take((about + mark).len() as int) == about + mark);
    if keywords.len() > 0 {
        let k = (about.len() + mark.len() + persona_head().len()) as int;
        assert(keywords.push(more).drop_last() == keywords);
        assert(joined(keywords.push(more), ", "@) == list + ", "@ + more);
        assert(all.take(k + list.len()) == about + mark + persona_head() + list);
        assert(all.skip(k + list.len()) == persona_tail());
        assert(instruction(about, keywords.push(more)) == all.take(k + list.len()) + ", "@ + more
            + all.skip(k + list.len()));
    }
}

} // verus!
