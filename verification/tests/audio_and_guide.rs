use brush::audio::{
    create_wav_buffer, fill_output, i16_samples, needs_resampling, SPEECH_RATE, TTS_RATE,
};
use brush::gemini::{
    find_speech, generate_speech, into_items, into_text, parse_reply, respond, AnswerError,
    GeminiClient, GuideError, GuideReply, Member, ReplyField, SpeechError, SpeechPart,
};
use brush::num::F32Bits;
use brush::recording::{
    press_voice_button, start_recording, voice_button, AudioState, Rgb, SceneCommand, VoiceAction,
    VoiceEvent, VoicePress,
};

#[test]
fn wav_of_two_samples() {
    let file = create_wav_buffer(&[1, -2], SPEECH_RATE);
    let mut want: Vec<u8> = Vec::new();
    want.extend_from_slice(b"RIFF");
    want.extend_from_slice(&40u32.to_le_bytes());
    want.extend_from_slice(b"WAVE");
    want.extend_from_slice(b"fmt ");
    want.extend_from_slice(&16u32.to_le_bytes());
    want.extend_from_slice(&1u16.to_le_bytes());
    want.extend_from_slice(&1u16.to_le_bytes());
    want.extend_from_slice(&16000u32.to_le_bytes());
    want.extend_from_slice(&32000u32.to_le_bytes());
    want.extend_from_slice(&2u16.to_le_bytes());
    want.extend_from_slice(&16u16.to_le_bytes());
    want.extend_from_slice(b"data");
    want.extend_from_slice(&4u32.to_le_bytes());
    want.extend_from_slice(&[1, 0, 254, 255]);
    assert_eq!(file, want);
}

#[test]
fn samples_are_read_back() {
    let samples: Vec<i16> = vec![0, 1, -1, i16::MAX, i16::MIN, 256, -257];
    let file = create_wav_buffer(&samples, TTS_RATE);
    assert_eq!(file.len(), 44 + 2 * samples.len());
    assert_eq!(i16_samples(&file[44..]), samples);
}

#[test]
fn an_odd_byte_is_left_out() {
    assert_eq!(i16_samples(&[1, 0, 7]), vec![1]);
    assert_eq!(i16_samples(&[]), Vec::<i16>::new());
}

fn sound(values: &[u32]) -> Vec<F32Bits> {
    values.iter().map(|v| F32Bits { bits: *v }).collect()
}

#[test]
fn every_channel_plays_the_same() {
    let samples = sound(&[1, 2, 3]);
    let (out, cursor) = fill_output(&samples, 0, 5, 2);
    assert_eq!(out, sound(&[1, 1, 2, 2, 3]));
    assert_eq!(cursor, 3);
    let (out, cursor) = fill_output(&samples, 2, 6, 2);
    assert_eq!(out, sound(&[3, 3, 0, 0, 0, 0]));
    assert_eq!(cursor, 3);
    let (out, cursor) = fill_output(&samples, 1, 0, 2);
    assert!(out.is_empty());
    assert_eq!(cursor, 1);
}

#[test]
fn equal_rates_need_no_resampling() {
    assert!(!needs_resampling(16000, 16000));
    assert!(needs_resampling(48000, 16000));
}

fn guide() -> GeminiClient {
    GeminiClient::new("About the piece.", vec!["the_base".to_string(), "nothing".to_string()])
}

#[test]
fn the_guide_is_told_about_the_piece_first() {
    let text = guide().combined_instruction();
    assert!(text.starts_with(
        "About the piece.\n\n--- INSTRUCTIONS ---\nYou are a professional museum guide. You answer"
    ));
    assert!(text.contains("from the provided list: the_base, nothing. Try to only refer"));
    assert!(text.ends_with("select the option nothing."));
}

#[test]
fn questions_are_sent_in_base_64() {
    let request = guide().ask_guide(vec![77, 97, 110, 0], "audio/wav");
    assert_eq!(request.audio, "TWFuAA==");
    assert_eq!(request.audio_format, "audio/wav");
    assert_eq!(request.response_mime_type, "application/json");
    assert!(request.turns.is_empty());
}

const ANSWER: &str = "{\"text_response\": \"It is old.\", \"audio_transcript\": \"How old?\", \
    \"selected_keywords\": [\"the_base\"]}";

#[test]
fn answers_are_remembered() {
    let mut client = guide();
    let reply = parse_reply(ANSWER).unwrap();
    assert_eq!(client.record(&reply).unwrap(), "It is old.");
    let request = client.ask_guide(vec![], "audio/wav");
    assert_eq!(request.turns.len(), 1);
    assert_eq!(request.turns[0].user_message, "How old?");
    assert_eq!(request.turns[0].assistant_response, "It is old.");
    assert_eq!(request.audio, "");
}

#[test]
fn answers_are_remembered_before_they_are_spoken() {
    let mut client = guide();
    let pending = client.take_reply(ANSWER).unwrap();
    assert_eq!(client.conversation.len(), 1);
    assert_eq!(pending.answer, "It is old.");
    assert_eq!(pending.speech.user_message, "It is old.");
    assert!(matches!(
        pending.complete(&vec![]),
        Err(AnswerError::Speech { error: SpeechError::NoAudio })
    ));
    assert_eq!(client.conversation.len(), 1);
    let pending = client.take_reply(ANSWER).unwrap();
    let response = pending.complete(&vec![part("audio/L16", "TWFu")]).unwrap();
    assert_eq!(response.audio_output, vec![77, 97, 110]);
    assert_eq!(response.text_output, "It is old.");
    assert_eq!(response.keywords, vec!["the_base"]);
    assert_eq!(client.conversation.len(), 2);
}

#[test]
fn sound_is_looked_for_before_keywords() {
    let text = "{\"text_response\": \"a\", \"audio_transcript\": \"q\"}";
    let mut client = guide();
    assert!(matches!(
        client.take_reply(text).unwrap().complete(&vec![part("audio/L16", "T")]),
        Err(AnswerError::Speech { error: SpeechError::Undecodable { .. } })
    ));
    assert!(matches!(
        client.take_reply(text).unwrap().complete(&vec![part("audio/L16", "TWFu")]),
        Err(AnswerError::Reply {
            error: GuideError::MissingField { field: ReplyField::SelectedKeywords }
        })
    ));
    assert_eq!(client.conversation.len(), 2);
    assert!(matches!(client.take_reply("{"), Err(GuideError::BadJson { .. })));
    assert!(matches!(
        client.take_reply("{\"text_response\": \"a\"}"),
        Err(GuideError::MissingField { field: ReplyField::AudioTranscript })
    ));
    assert_eq!(client.conversation.len(), 2);
}

#[test]
fn answers_have_to_look_like_the_schema() {
    let schema = guide().ask_guide(vec![], "audio/wav").response_schema;
    let value: serde_json::Value = serde_json::from_str(&schema).unwrap();
    assert_eq!(value["type"], "object");
    assert_eq!(value["properties"]["text_response"]["type"], "string");
    assert_eq!(
        value["properties"]["audio_transcript"]["description"],
        "The faithful transcription of the latest user audio message."
    );
    assert_eq!(value["properties"]["selected_keywords"]["items"]["type"], "string");
    let required: Vec<&str> =
        value["required"].as_array().unwrap().iter().map(|v| v.as_str().unwrap()).collect();
    assert_eq!(required, vec!["text_response", "selected_keywords", "audio_transcript"]);
}

#[test]
fn answers_are_completed() {
    let reply = parse_reply(ANSWER).unwrap();
    let response = respond(reply, "It is old.".to_string(), vec![1, 2]).unwrap();
    assert_eq!(response.audio_output, vec![1, 2]);
    assert_eq!(response.text_output, "It is old.");
    assert_eq!(response.keywords, vec!["the_base"]);
}

#[test]
fn answers_that_are_not_json() {
    assert!(matches!(parse_reply("{"), Err(GuideError::BadJson { .. })));
}

#[test]
fn answers_with_missing_parts() {
    let mut client = guide();
    let reply = parse_reply("{\"audio_transcript\": \"q\"}").unwrap();
    assert!(matches!(
        client.record(&reply),
        Err(GuideError::MissingField { field: ReplyField::TextResponse })
    ));
    let reply = parse_reply("{\"text_response\": \"a\", \"audio_transcript\": 3}").unwrap();
    assert!(matches!(
        client.record(&reply),
        Err(GuideError::MissingField { field: ReplyField::AudioTranscript })
    ));
    assert!(client.conversation.is_empty());
    let reply = parse_reply("[1]").unwrap();
    assert!(reply.text_response.is_none() && reply.selected_keywords.is_none());
    let reply = parse_reply("{\"selected_keywords\": [\"a\", 1]}").unwrap();
    assert_eq!(reply.selected_keywords, Some(vec![Some("a".to_string()), None]));
    assert!(matches!(
        respond(reply, String::new(), vec![]),
        Err(GuideError::MissingField { field: ReplyField::SelectedKeywords })
    ));
    let empty = GuideReply { text_response: None, audio_transcript: None, selected_keywords: None };
    assert!(respond(empty, String::new(), vec![]).is_err());
}

#[test]
fn members_are_told_apart() {
    assert_eq!(into_text(Member::Text { text: "a".to_string() }), Some("a".to_string()));
    assert_eq!(into_text(Member::Other), None);
    assert_eq!(into_items(Member::List { items: vec![None] }), Some(vec![None]));
    assert_eq!(into_items(Member::Text { text: String::new() }), None);
}

#[test]
fn speech_is_asked_for() {
    let request = generate_speech("Hello, welcome to the museum! How can I assist you today?");
    assert_eq!(
        request.user_message,
        "Hello, welcome to the museum! How can I assist you today?"
    );
    assert_eq!(request.response_modality, "AUDIO");
    assert_eq!(request.voice_name, "Puck");
}

fn part(mime_type: &str, data: &str) -> SpeechPart {
    SpeechPart::InlineData { mime_type: mime_type.to_string(), data: data.to_string() }
}

#[test]
fn speech_is_found() {
    let parts = vec![
        SpeechPart::Other,
        part("image/png", "AAAA"),
        part("audio/L16", "TWFu"),
        part("audio/L16", "AAAA"),
    ];
    assert_eq!(find_speech(&parts).unwrap(), vec![77, 97, 110]);
}

#[test]
fn speech_that_is_missing_or_broken() {
    assert!(matches!(find_speech(&vec![part("image/png", "AAAA")]), Err(SpeechError::NoAudio)));
    assert!(matches!(find_speech(&vec![]), Err(SpeechError::NoAudio)));
    for bad in ["TWF", "TWF=", "TW==x", "TWFuT", "TR==", "T\nWFu"] {
        let r = find_speech(&vec![part("audio/wav", bad)]);
        assert!(matches!(r, Err(SpeechError::Undecodable { .. })), "{}", bad);
    }
}

#[test]
fn base_64_of_all_bytes() {
    let bytes: Vec<u8> = (0..=255).collect();
    let text = guide().ask_guide(bytes.clone(), "x").audio;
    assert!(text.starts_with("AAECAwQF"));
    assert!(text.ends_with("/P3+/w=="));
    assert_eq!(text.len(), 344);
    assert_eq!(find_speech(&vec![part("audio/x", &text)]).unwrap(), bytes);
}

#[test]
fn the_button_shows_what_goes_on() {
    let idle = voice_button(AudioState::Idle);
    assert_eq!(idle.text, "✨ Ask Gemini");
    assert!(idle.enabled);
    assert_eq!(idle.fill, Rgb { r: 60, g: 120, b: 200 });
    assert_eq!(voice_button(AudioState::Recording).text, "⏹ Stop Recording");
    let thinking = voice_button(AudioState::Thinking);
    assert_eq!(thinking.text, "🤔 Thinking...");
    assert!(!thinking.enabled);
    assert!(!voice_button(AudioState::Playing).enabled);
    assert_eq!(AudioState::default(), AudioState::Idle);
}

#[test]
fn pressing_the_button() {
    let mut state = AudioState::Idle;
    assert_eq!(press_voice_button(&mut state), VoicePress::Start);
    assert_eq!(state, AudioState::Recording);
    assert_eq!(press_voice_button(&mut state), VoicePress::Stop);
    assert_eq!(state, AudioState::Thinking);
    assert_eq!(press_voice_button(&mut state), VoicePress::Nothing);
    assert_eq!(state, AudioState::Thinking);
}

fn ask(events: Vec<VoiceEvent>) -> Vec<String> {
    let mut question = start_recording(true).unwrap();
    let mut log = vec![format!("{:?}", question.next(VoiceEvent::Done))];
    for event in events {
        assert!(question.accepts(&event));
        let action = question.next(event);
        log.push(format!("{:?}", action));
    }
    log
}

#[test]
fn a_question_by_voice() {
    let log = ask(vec![
        VoiceEvent::Done,
        VoiceEvent::Input { sample_rate: 44100, is_f32: true },
        VoiceEvent::Recorded { samples: 9 },
        VoiceEvent::Done,
        VoiceEvent::Done,
        VoiceEvent::Answered { keywords: vec!["lens".to_string(), "b".to_string()], audio_bytes: 8 },
        VoiceEvent::Done,
        VoiceEvent::Done,
        VoiceEvent::Done,
        VoiceEvent::Output { sample_rate: 48000, channels: 2 },
        VoiceEvent::Done,
        VoiceEvent::Done,
        VoiceEvent::Done,
    ]);
    assert_eq!(
        log,
        vec![
            "FindInput",
            "ReadInputConfig",
            "Record",
            "Encode { from_rate: 44100, to_rate: 16000 }",
            "SetState { state: Thinking }",
            "Ask",
            "Send { command: SelectSplat(Some(\"lens\")) }",
            "SetState { state: Playing }",
            "FindOutput",
            "ReadOutputConfig",
            "Play { from_rate: 24000, to_rate: 48000, channels: 2 }",
            "Send { command: SelectSplat(None) }",
            "SetState { state: Idle }",
            "Finish",
        ]
    );
}

#[test]
fn a_question_that_fails_leaves_the_button_ready() {
    let idle = vec!["SetState { state: Idle }", "Finish"];
    let no_device = ask(vec![VoiceEvent::Failed, VoiceEvent::Done]);
    assert_eq!(&no_device[1..], &idle[..]);
    let silent = ask(vec![
        VoiceEvent::Done,
        VoiceEvent::Input { sample_rate: 1, is_f32: true },
        VoiceEvent::Recorded { samples: 0 },
        VoiceEvent::Done,
    ]);
    assert_eq!(&silent[3..], &idle[..]);
    let unheard = ask(vec![
        VoiceEvent::Done,
        VoiceEvent::Input { sample_rate: 1, is_f32: true },
        VoiceEvent::Recorded { samples: 1 },
        VoiceEvent::Done,
        VoiceEvent::Done,
        VoiceEvent::Answered { keywords: vec![], audio_bytes: 1 },
        VoiceEvent::Done,
        VoiceEvent::Done,
    ]);
    assert_eq!(unheard[6], "SetState { state: Playing }");
    assert_eq!(&unheard[7..], &idle[..]);
}

#[test]
fn other_samples_leave_the_button_as_it_was() {
    let log = ask(vec![
        VoiceEvent::Done,
        VoiceEvent::Input { sample_rate: 1, is_f32: false },
    ]);
    assert_eq!(log, vec!["FindInput", "ReadInputConfig", "Finish"]);
}

#[test]
fn without_a_guide_nothing_is_asked() {
    assert!(start_recording(false).is_none());
    let mut question = start_recording(true).unwrap();
    assert!(!question.accepts(&VoiceEvent::Failed));
    assert!(matches!(question.next(VoiceEvent::Done), VoiceAction::FindInput));
    assert!(question.accepts(&VoiceEvent::Failed));
    let SceneCommand::SelectSplat(name) = SceneCommand::SelectSplat(None);
    assert!(name.is_none());
}
