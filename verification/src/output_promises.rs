//! What callers of the functions that make texts, sound and pictures can rely on.

use crate::audio::{
    create_wav_buffer, fill_output, i16_samples, needs_resampling, number_at, short_at,
};
use crate::capture::{dataset_dir, eval_image_name, CaptureStep, TrainAndEval};
use crate::dataset_debug::{copies_before, debug_copies, neighbor_lists, Copied};
use crate::eval::{eval_image_path, explain_eval_failure, sample_paths, EvalAction, SamplePaths};
use crate::export::{checkpoint_name, checkpoint_path};
use crate::failure::Failure;
use crate::gemini::{
    find_speech, generate_speech, respond, sounds, GeminiClient, GeminiResponse, GuideError,
    GuideReply, GuideRequest, SpeechError, SpeechPart, SpeechRequest,
};
use crate::geometry::{
    channels_of, is_spatial, neighbor_windows, one_per_pixel, pixel_position, sample_corners,
    Channel, Corners, Neighbors,
};
use crate::message::{ProcessMessage, SplatId, TrainMessage, Vec3Bits};
use crate::npz::{load_tensor_from_npz, NpzError};
use crate::num::F32Bits;
use crate::paths::{extension_of, parent_of, path_joined, stem_of, PathStyle};
use crate::ply::{point_lines, save_point_cloud_to_ply, PlyPoint};
use crate::recording::Rgb;
use crate::text::{
    decimal, joined, push_decimal, push_zero_padded, replace_all, same_text, starts_with, texts,
    zero_padded,
};
use crate::text_laws::{found_at, law_checkpoint_named, law_replaced, not_before, number_of};
use crate::train_stream::{explain_warning, RunFacts, UpAxis, WarningContext};
use crate::view_stream::{process_stream, ProcessStep};
use crate::visualization::{
    create_visualization_image, find_span, graded, is_normal_map, is_point, mask_bytes,
    opaque_bytes, with_alpha, Span,
};
use vstd::prelude::*;
use vstd::string::*;

verus! {

/// A number that is appended can be read back, padded or not, and what was there stays.
pub proof fn promise_numbers(a: &mut String, n: u64, b: &mut String, m: u64, width: usize)
    requires
        call_ensures(push_decimal, (a, n), ()),
        call_ensures(push_zero_padded, (b, m, width), ()),
    ensures
        final(a)@.take(old(a)@.len() as int) == old(a)@,
        number_of(final(a)@.skip(old(a)@.len() as int)) == n,
        final(b)@.take(old(b)@.len() as int) == old(b)@,
        number_of(final(b)@.skip(old(b)@.len() as int)) == m,
        final(b)@.len() >= old(b)@.len() + width,
{
    crate::text_laws::law_decimal_reads_back(n as nat);
    crate::text_laws::law_padding(m as nat, width as nat, 0);
    let x = old(a)@;
    let y = old(b)@;
    assert((x + decimal(n as nat)).take(x.len() as int) == x);
    assert((x + decimal(n as nat)).skip(x.len() as int) == decimal(n as nat));
    let padded = zero_padded(m as nat, width as nat);
    assert((y + padded).take(y.len() as int) == y);
    assert((y + padded).skip(y.len() as int) == padded);
}

/// Replacing leaves a text without the pattern as it is, and replaces where the pattern
/// stands first; texts are the same exactly if their characters are.
pub proof fn promise_replacing(
    s: &str,
    pattern: &str,
    with: &str,
    r: String,
    at: int,
    a: &str,
    b: &str,
    same: bool,
    begins: bool,
)
    requires
        call_ensures(replace_all, (s, pattern, with), r),
        call_ensures(same_text, (a, b), same),
        call_ensures(starts_with, (a, b), begins),
        pattern@.len() > 0,
    ensures
        not_before(s@, pattern@, s@.len() as int) ==> r@ == s@,
        found_at(s@, pattern@, at) && not_before(s@, pattern@, at) ==> r@.len() >= at
            + with@.len() && r@.take(at) == s@.take(at) && r@.subrange(at, at + with@.len())
            == with@,
        same <==> a@ == b@,
        begins <==> b@.len() <= a@.len() && a@.subrange(0, b@.len() as int) == b@,
{
    law_replaced(s@, pattern@, with@, at);
    if found_at(s@, pattern@, at) && not_before(s@, pattern@, at) {
        assert(r@.take(at) == s@.take(at));
        assert(r@.subrange(at, at + with@.len()) == with@);
    }
    if b@.len() <= a@.len() {
        assert(a@.take(b@.len() as int) == a@.subrange(0, b@.len() as int));
    }
}

/// A checkpoint lies in its directory under the name of its template, with its number where
/// the template has a place for it.
pub proof fn promise_checkpoints(
    style: PathStyle,
    dir: &str,
    template: &str,
    iter: u32,
    total_steps: u32,
    name: String,
    path: String,
    before: Seq<char>,
    after: Seq<char>,
)
    requires
        call_ensures(checkpoint_name, (template, iter, total_steps), name),
        call_ensures(checkpoint_path, (style, dir, template, iter, total_steps), path),
        template@ == before + "{iter}"@ + after,
        not_before(template@, "{iter}"@, before.len() as int),
        not_before(after, "{iter}"@, after.len() as int),
        iter <= total_steps,
    ensures
        path@ == path_joined(style, dir@, name@),
        ({
            let k = name@.len() - before.len() - after.len();
            &&& k == decimal(total_steps as nat).len()
            &&& name@ == before + name@.subrange(before.len() as int, before.len() + k) + after
            &&& number_of(name@.subrange(before.len() as int, before.len() + k)) == iter
        }),
{
    law_checkpoint_named(before, after, iter as nat, total_steps as nat);
    crate::text_laws::law_padding(iter as nat, decimal(total_steps as nat).len(), 0);
    crate::export::law_checkpoint_numbers(iter as nat, iter as nat, total_steps as nat);
    let number = zero_padded(iter as nat, decimal(total_steps as nat).len());
    assert(name@ == before + number + after);
    assert(name@.subrange(before.len() as int, (before.len() + number.len()) as int) == number);
}

/// Where the files of an evaluation go.
pub proof fn promise_eval_files(
    style: PathStyle,
    dir: &str,
    iter: u32,
    img_name: &str,
    image: String,
    path: &str,
    files: SamplePaths,
    object: &str,
    dataset: String,
    view: usize,
    compared: String,
)
    requires
        call_ensures(eval_image_path, (style, dir, iter, img_name), image),
        call_ensures(sample_paths, (style, path), files),
        call_ensures(dataset_dir, (style, object), dataset),
        call_ensures(eval_image_name, (view,), compared),
    ensures
        image@ == path_joined(
            style,
            path_joined(style, dir@, "eval_"@ + decimal(iter as nat)),
            img_name@ + ".png"@,
        ),
        ({
            let above = match parent_of(style, path@) {
                Some(p) => p,
                None => "."@,
            };
            let stem = match stem_of(style, path@) {
                Some(s) => s,
                None => "eval"@,
            };
            let extension = match extension_of(style, path@) {
                Some(e) => e,
                None => "png"@,
            };
            &&& files.dir@ == above
            &&& files.gt@ == path_joined(style, above, stem + "_gt."@ + extension)
            &&& files.rendered@ == path_joined(style, above, stem + "_rendered."@ + extension)
        }),
        dataset@ == path_joined(style, object@, "nerfstudio_dataset"@),
        compared@ == "eval_image_"@ + decimal(view as nat) + ".png"@,
{
}

/// Errors are told with what they were about; other errors stay as they are.
pub proof fn promise_explanations(
    action: EvalAction,
    error: Failure,
    told: Failure,
    context: WarningContext,
    warned: Failure,
    facts: RunFacts,
    axis: UpAxis,
    up: Option<Vec3Bits>,
)
    requires
        call_ensures(explain_eval_failure, (action, error), told),
        call_ensures(explain_warning, (context, error), warned),
        call_ensures(RunFacts::up_axis, (&facts, axis), up),
    ensures
        action is Measure ==> told.chain@.len() == error.chain@.len() + 1 && told.chain@[0]@
            == "Failed to run eval for sample."@,
        !(action is Measure) ==> told == error,
        context is LogScene ==> warned.chain@.len() == error.chain@.len(),
        context matches WarningContext::Eval { iter } ==> warned.chain@.len() == error.chain@.len()
            + 1 && warned.chain@[0]@ == "Failed evaluation at iteration "@ + decimal(iter as nat),
        context matches WarningContext::Export { iter } ==> warned.chain@.len()
            == error.chain@.len() + 1 && warned.chain@[0]@ == "Export at iteration "@ + decimal(
            iter as nat,
        ) + " failed"@,
        axis is Unchanged ==> up is None,
        axis is Named ==> up == facts.named_up,
        axis is Estimated ==> up == Some(facts.estimated_up),
{
    assert(told.causes().len() == told.chain@.len());
    assert(warned.causes().len() == warned.chain@.len());
    assert(error.causes().len() == error.chain@.len());
    if told.chain@.len() > 0 {
        assert(told.causes()[0] == told.chain@[0]@);
    }
    if warned.chain@.len() > 0 {
        assert(warned.causes()[0] == warned.chain@[0]@);
    }
}

/// Who watches a training process keeps the last splats that it had when it said that there
/// were some, and stops when training is over.
pub proof fn promise_watching(
    watch: &mut TrainAndEval,
    message: Result<ProcessMessage, Failure>,
    current: Option<SplatId>,
    step: CaptureStep,
)
    requires
        call_ensures(TrainAndEval::on_message, (watch, &message, current), step),
    ensures
        (message matches Ok(m) && m is SplatsUpdated) && current is Some ==> final(watch).splats
            == current,
        !(message matches Ok(m) && m is SplatsUpdated) || current is None ==> final(watch).splats
            == old(watch).splats,
        step is Stop <==> (message matches Ok(ProcessMessage::TrainMessage(t)) && t
            is DoneTraining),
        step is Print <==> message is Err,
{
}

/// What the guide is sent: what it is told, the whole conversation in order, and the sound
/// in base 64 with its format.
pub proof fn promise_question(
    client: GeminiClient,
    sound: Vec<u8>,
    format: &str,
    request: GuideRequest,
    i: int,
)
    requires
        call_ensures(GeminiClient::ask_guide, (&client, sound, format), request),
    ensures
        request.turns@.len() == client.conversation@.len(),
        0 <= i < client.conversation@.len() ==> request.turns@[i].user_message@
            == client.conversation@[i].user_message@ && request.turns@[i].assistant_response@
            == client.conversation@[i].assistant_response@,
        request.audio@ == crate::base64_text::base64_text(sound@),
        request.audio_format@ == format@,
        request.response_mime_type@ == "application/json"@,
        request.system_instruction@ == client.system_instruction@
            + "\n\n--- INSTRUCTIONS ---\n"@ + ("You are a professional museum guide. You answer questions based on the provided audio input and the information about the artist and art provided above. Respond in JSON format according to the specified schema. Keep your answers concise and informative. First, transcribe the audio input faithfully. You select keywords relevant to the question and your response from the provided list: "@
            + joined(texts(client.keywords@), ", "@) + ". Try to only refer to one keyword in each answer. If you are talking about the artist or the piece in general, select the option nothing."@),
        request.response_schema@ == "{\"type\":\"object\",\"properties\":{\"text_response\":{\"type\":\"string\",\"description\":\"A natural language response.\"},\"audio_transcript\":{\"type\":\"string\",\"description\":\"The faithful transcription of the latest user audio message.\"},\"selected_keywords\":{\"type\":\"array\",\"description\":\"List of extracted or chosen keywords.\",\"items\":{\"type\":\"string\"}}},\"required\":[\"text_response\",\"selected_keywords\",\"audio_transcript\"]}"@,
{
    let all = crate::gemini::exchanges(client.conversation@);
    let sent = crate::gemini::exchanges(request.turns@);
    assert(all.len() == client.conversation@.len());
    assert(sent.len() == request.turns@.len());
    if 0 <= i < client.conversation@.len() {
        assert(all[i] == sent[i]);
    }
}

/// An answer is remembered exactly if it is complete: behind all others, the question as it
/// was heard first. Its text is what is spoken.
pub proof fn promise_answer(
    client: &mut GeminiClient,
    reply: GuideReply,
    answer: Result<String, GuideError>,
    i: int,
)
    requires
        call_ensures(GeminiClient::record, (client, &reply), answer),
    ensures
        answer is Ok <==> reply.text_response is Some && reply.audio_transcript is Some,
        answer matches Ok(text) ==> {
            let n = old(client).conversation@.len();
            &&& text@ == reply.text_response->0@
            &&& final(client).conversation@.len() == n + 1
            &&& final(client).conversation@[n as int].user_message@ == reply.audio_transcript->0@
            &&& final(client).conversation@[n as int].assistant_response@
                == reply.text_response->0@
            &&& 0 <= i < n ==> final(client).conversation@[i].user_message@ == old(
                client).conversation@[i].user_message@
        },
        answer is Err ==> final(client).conversation@.len() == old(client).conversation@.len(),
        answer matches Err(GuideError::MissingField { field }) ==> {
            &&& field is TextResponse <==> reply.text_response is None
            &&& field is AudioTranscript <==> reply.text_response is Some
        },
        final(client).keywords == old(client).keywords,
        final(client).system_instruction == old(client).system_instruction,
{
    let before = crate::gemini::exchanges(old(client).conversation@);
    let after = crate::gemini::exchanges(final(client).conversation@);
    assert(before.len() == old(client).conversation@.len());
    assert(after.len() == final(client).conversation@.len());
    if answer is Ok {
        assert(after[before.len() as int] == (
            reply.audio_transcript->0@,
            reply.text_response->0@,
        ));
        if 0 <= i < before.len() {
            assert(after[i] == before[i]);
        }
    }
}

/// A complete answer has the sound, the text and all keywords, in order; it cannot be
/// completed exactly if there are no keywords or one of them is no text.
pub proof fn promise_response(
    reply: GuideReply,
    text: String,
    sound: Vec<u8>,
    r: Result<GeminiResponse, GuideError>,
    i: int,
    spoken: SpeechRequest,
    words: &str,
)
    requires
        call_ensures(respond, (reply, text, sound), r),
        call_ensures(generate_speech, (words,), spoken),
    ensures
        r is Ok <==> reply.selected_keywords is Some && forall|k: int|
            0 <= k < reply.selected_keywords->0@.len() ==> (
            #[trigger] reply.selected_keywords->0@[k]) is Some,
        r matches Ok(response) ==> {
            &&& response.audio_output == sound
            &&& response.text_output == text
            &&& response.keywords@.len() == reply.selected_keywords->0@.len()
            &&& 0 <= i < response.keywords@.len() ==> response.keywords@[i]@
                == reply.selected_keywords->0@[i]->0@
        },
        r matches Err(e) ==> (e matches GuideError::MissingField { field } && field
            is SelectedKeywords),
        spoken.user_message@ == words@,
        spoken.response_modality@ == "AUDIO"@,
        spoken.voice_name@ == "Puck"@,
{
    if let Some(list) = reply.selected_keywords {
        let all = crate::gemini::option_texts(list@);
        assert(all.len() == list@.len());
        assert forall|k: int| 0 <= k < list@.len() implies (#[trigger] all[k]) is Some == list@[k]
            is Some by {}
        if forall|k: int| 0 <= k < list@.len() ==> (#[trigger] list@[k]) is Some {
            assert forall|k: int| 0 <= k < all.len() implies (#[trigger] all[k]) is Some by {
                assert(list@[k] is Some);
            }
        }
        if forall|k: int| 0 <= k < all.len() ==> (#[trigger] all[k]) is Some {
            assert forall|k: int| 0 <= k < list@.len() implies (#[trigger] list@[k]) is Some by {
                assert(all[k] is Some);
            }
        }
        if let Ok(response) = r {
            assert(texts(response.keywords@).len() == response.keywords@.len());
            if 0 <= i < response.keywords@.len() {
                assert(texts(response.keywords@)[i] == response.keywords@[i]@);
                assert(all[i] == Some(list@[i]->0@));
            }
        }
    }
}

/// What a file holds that is a header and something behind it.
proof fn lemma_header(header: Seq<u8>, body: Seq<u8>, at: int)
    requires
        header.len() == 44,
        0 <= at <= 40,
    ensures
        number_at(header + body, at) == number_at(header, at),
        short_at(header + body, at) == short_at(header, at),
{
    let file = header + body;
    assert(file[at] == header[at] && file[at + 1] == header[at + 1] && file[at + 2] == header[at
        + 2] && file[at + 3] == header[at + 3]);
}

/// A WAV file can be read back: its header says how much follows and at which rate.
pub proof fn promise_wav_header(samples: &[i16], rate: u32, file: Vec<u8>)
    requires
        call_ensures(create_wav_buffer, (samples, rate), file),
        rate * 16 <= u32::MAX,
        36 + 2 * samples@.len() <= u32::MAX,
    ensures
        number_at(file@, 4) == 36 + 2 * samples@.len(),
        number_at(file@, 24) == rate,
        number_at(file@, 28) == 2 * rate,
        number_at(file@, 40) == 2 * samples@.len(),
        short_at(file@, 20) == 1,
        short_at(file@, 22) == 1,
        short_at(file@, 32) == 2,
        short_at(file@, 34) == 16,
{
    let size = crate::audio::wav_data_size(samples@.len() as int);
    crate::audio::law_wav_data_size(samples@.len() as int);
    crate::audio::law_wav_header_reads_back(size, rate as int);
    let header = crate::audio::wav_header(size, rate as int);
    let body = crate::audio::sample_bytes(samples@);
    lemma_header(header, body, 4);
    lemma_header(header, body, 20);
    lemma_header(header, body, 22);
    lemma_header(header, body, 24);
    lemma_header(header, body, 28);
    lemma_header(header, body, 32);
    lemma_header(header, body, 34);
    lemma_header(header, body, 40);
}

/// What follows the header of a WAV file are the samples.
pub proof fn promise_wav_samples(samples: &[i16], rate: u32, file: Vec<u8>, i: int)
    requires
        call_ensures(create_wav_buffer, (samples, rate), file),
        0 <= i < samples@.len(),
    ensures
        file@.len() == 44 + 2 * samples@.len(),
        short_at(file@, 44 + 2 * i) == if samples@[i] >= 0 {
            samples@[i] as int
        } else {
            samples@[i] + 65536
        },
{
    let size = crate::audio::wav_data_size(samples@.len() as int);
    crate::audio::law_wav_holds_samples(samples@, rate as int);
    crate::audio::law_bytes_of_samples(samples@, i);
    lemma_behind(
        crate::audio::wav_header(size, rate as int),
        crate::audio::sample_bytes(samples@),
        2 * i,
    );
}

proof fn lemma_behind(header: Seq<u8>, body: Seq<u8>, at: int)
    requires
        0 <= at,
        at + 1 < body.len(),
    ensures
        short_at(header + body, header.len() + at) == short_at(body, at),
{
    let file = header + body;
    assert(file[header.len() + at] == body[at]);
    assert(file[header.len() + at + 1] == body[at + 1]);
}

/// Bytes are read as samples two by two, the lower byte first, and a rate has to be changed
/// exactly if it is another one.
pub proof fn promise_samples(
    bytes: &[u8],
    samples: Vec<i16>,
    i: int,
    from_hz: u32,
    to_hz: usize,
    changed: bool,
)
    requires
        call_ensures(i16_samples, (bytes,), samples),
        call_ensures(needs_resampling, (from_hz, to_hz), changed),
    ensures
        2 * samples@.len() <= bytes@.len() < 2 * samples@.len() + 2,
        0 <= i < samples@.len() ==> short_at(bytes@, 2 * i) == if samples@[i] >= 0 {
            samples@[i] as int
        } else {
            samples@[i] + 65536
        },
        changed <==> from_hz != to_hz,
{
}

/// All channels of a frame play the same sample, one frame after the other, and silence
/// when there are no samples left.
pub proof fn promise_playing(
    samples: Vec<F32Bits>,
    cursor: usize,
    len: usize,
    channels: usize,
    r: (Vec<F32Bits>, usize),
    frame: int,
    channel: int,
)
    requires
        call_ensures(fill_output, (&samples, cursor, len, channels), r),
        channels > 0,
        cursor <= samples@.len(),
        0 <= frame,
        0 <= channel < channels,
        frame * channels + channel < len,
    ensures
        r.0@.len() == len,
        cursor + frame < samples@.len() ==> r.0@[frame * channels + channel] == samples@[cursor
            + frame],
        cursor + frame >= samples@.len() ==> r.0@[frame * channels + channel].bits == 0,
        cursor <= r.1 <= samples@.len(),
        r.1 < samples@.len() ==> (r.1 - cursor) * channels >= len,
{
    let k = frame * channels + channel;
    assert(0 <= k && k / channels as int == frame) by (nonlinear_arith)
        requires
            k == frame * channels + channel,
            0 <= channel < channels,
            0 <= frame,
    ;
    assert(r.0[k] == crate::audio::played(samples@, cursor + k / channels as int));
    crate::audio::law_frames_cover(len as int, channels as int);
    crate::audio::law_played(samples@, cursor + frame);
    assert(crate::audio::frames(len as int, channels as int) >= 0) by {
        crate::num::lemma_ceil_div(len as int, channels as int);
    }
}

/// The six pictures of an optimization step stand in two rows of three: depth, the picture
/// itself and normals above, and below them weights, weights of the picture, and normals
/// from depth.
pub proof fn promise_picture_of_step(
    depth: Vec<u8>,
    image: Vec<u8>,
    normal: Vec<u8>,
    weights: Vec<u8>,
    img_weight: Vec<u8>,
    depth_normal: Vec<u8>,
    w: u32,
    h: u32,
    r: Vec<u8>,
    x: int,
    y: int,
    channel: int,
)
    requires
        call_ensures(
            create_visualization_image,
            (&depth, image, &normal, &weights, &img_weight, &depth_normal, w, h),
            r,
        ),
        0 <= x < w,
        0 <= y < h,
        0 <= channel < 3,
        image@.len() >= 4 * (w * h),
    ensures
        ({
            let p = y * w + x;
            let line = 3 * w;
            &&& r@[(y * line + x) * 4 + channel] == depth@[3 * p + channel]
            &&& r@[(y * line + (w + x)) * 4 + channel] == image@[4 * p + channel]
            &&& r@[(y * line + (2 * w + x)) * 4 + channel] == normal@[3 * p + channel]
            &&& r@[((h + y) * line + x) * 4 + channel] == weights@[3 * p + channel]
            &&& r@[((h + y) * line + (w + x)) * 4 + channel] == img_weight@[3 * p + channel]
            &&& r@[((h + y) * line + (2 * w + x)) * 4 + channel] == depth_normal@[3 * p + channel]
        }),
{
    let n = (w * h) as nat;
    let tiles = seq![
        opaque_bytes(depth@, n),
        image@.take(4 * (w * h)),
        opaque_bytes(normal@, n),
        opaque_bytes(weights@, n),
        opaque_bytes(img_weight@, n),
        opaque_bytes(depth_normal@, n),
    ];
    let wi = w as int;
    let hi = h as int;
    let p = y * w + x;
    assert(0 <= p < wi * hi) by (nonlinear_arith)
        requires
            p == y * w + x,
            0 <= x < w,
            0 <= y < h,
            wi == w,
            hi == h,
    ;
    crate::visualization::law_opaque_pixels(depth@, n, p);
    crate::visualization::law_opaque_pixels(normal@, n, p);
    crate::visualization::law_opaque_pixels(weights@, n, p);
    crate::visualization::law_opaque_pixels(img_weight@, n, p);
    crate::visualization::law_opaque_pixels(depth_normal@, n, p);
    lemma_place(r@, tiles, wi, hi, 0, 0, x, y, channel);
    lemma_place(r@, tiles, wi, hi, 1, 0, x, y, channel);
    lemma_place(r@, tiles, wi, hi, 2, 0, x, y, channel);
    lemma_place(r@, tiles, wi, hi, 0, 1, x, y, channel);
    lemma_place(r@, tiles, wi, hi, 1, 1, x, y, channel);
    lemma_place(r@, tiles, wi, hi, 2, 1, x, y, channel);
}

proof fn lemma_place(
    r: Seq<u8>,
    tiles: Seq<Seq<u8>>,
    w: int,
    h: int,
    tile_col: int,
    tile_row: int,
    x: int,
    y: int,
    channel: int,
)
    requires
        r.len() == (w * 3) * (h * 2) * 4,
        forall|i: int|
            0 <= i < r.len() ==> #[trigger] r[i] == crate::visualization::grid_byte(tiles, w, h, i),
        0 <= tile_col < 3,
        0 <= tile_row < 2,
        0 <= x < w,
        0 <= y < h,
        0 <= channel < 4,
    ensures
        r[((tile_row * h + y) * (3 * w) + (tile_col * w + x)) * 4 + channel] == tiles[tile_row * 3
            + tile_col][(y * w + x) * 4 + channel],
{
    crate::visualization::law_pictures_in_grid(tiles, w, h, tile_col, tile_row, x, y, channel);
    let row = tile_row * h + y;
    let col = tile_col * w + x;
    let i = (row * (3 * w) + col) * 4 + channel;
    assert(0 <= row < 2 * h && 0 <= col < 3 * w) by (nonlinear_arith)
        requires
            row == tile_row * h + y,
            col == tile_col * w + x,
            0 <= tile_col < 3,
            0 <= tile_row < 2,
            0 <= x < w,
            0 <= y < h,
    ;
    assert(0 <= row * (3 * w) + col < (w * 3) * (h * 2)) by (nonlinear_arith)
        requires
            0 <= row < 2 * h,
            0 <= col < 3 * w,
    ;
    assert(r[i] == crate::visualization::grid_byte(tiles, w, h, i));
}

/// Masks become black and white, pictures become opaque, and values are told apart.
pub proof fn promise_pixels(
    mask: Vec<bool>,
    gray: Vec<u8>,
    rgb: Vec<u8>,
    pixels: usize,
    rgba: Vec<u8>,
    i: int,
    depth: F32Bits,
    point: bool,
    channels: usize,
    normals: bool,
)
    requires
        call_ensures(mask_bytes, (&mask,), gray),
        call_ensures(with_alpha, (&rgb, pixels), rgba),
        call_ensures(is_point, (depth,), point),
        call_ensures(is_normal_map, (channels,), normals),
    ensures
        gray@.len() == mask@.len(),
        0 <= i < mask@.len() ==> gray@[i] == if mask@[i] {
            255u8
        } else {
            0u8
        },
        rgba@.len() == 4 * pixels,
        0 <= i < pixels ==> rgba@[4 * i] == rgb@[3 * i] && rgba@[4 * i + 1] == rgb@[3 * i + 1]
            && rgba@[4 * i + 2] == rgb@[3 * i + 2] && rgba@[4 * i + 3] == 255,
        0 < depth.bits <= 0x3f80_0000 ==> point,
        depth.bits == 0 ==> !point,
        0x3f80_0000 < depth.bits <= 0x7f80_0000 ==> !point,
        0x8000_0000 <= depth.bits <= 0xff80_0000 ==> !point,
        normals <==> channels == 3,
{
    if 0 <= i < pixels {
        crate::visualization::law_opaque_pixels(rgb@, pixels as nat, i);
    }
}

/// Where neighbors and corners lie in a picture, and which of its channels are which.
pub proof fn promise_places(
    height: usize,
    width: usize,
    around: Neighbors,
    u: usize,
    v: usize,
    corners: Corners,
    i: usize,
    place: (usize, usize),
    channel: Channel,
    range: Option<(usize, usize)>,
)
    requires
        call_ensures(neighbor_windows, (height, width), around),
        call_ensures(sample_corners, (u, v, width, height), corners),
        call_ensures(pixel_position, (i, width), place),
        call_ensures(channels_of, (10, channel), range),
        height >= 2,
        width >= 2,
        u < width,
        v < height,
    ensures
        around.top.row_start == 0 && around.top.row_end == height - 2,
        around.bottom.row_start == 2 && around.bottom.row_end == height,
        around.left.row_start == 1 && around.left.row_end == height - 1,
        around.right.row_start == 1 && around.right.row_end == height - 1,
        around.top.col_start == 1 && around.top.col_end == width - 1,
        around.bottom.col_start == 1 && around.bottom.col_end == width - 1,
        around.left.col_start == 0 && around.left.col_end == width - 2,
        around.right.col_start == 2 && around.right.col_end == width,
        corners.q11 == v * width + u,
        u + 1 < width ==> corners.q21 == corners.q11 + 1 && corners.q22 == corners.q12 + 1,
        u + 1 == width ==> corners.q21 == corners.q11 && corners.q22 == corners.q12,
        v + 1 < height ==> corners.q12 == corners.q11 + width && corners.q22 == corners.q21
            + width,
        v + 1 == height ==> corners.q12 == corners.q11 && corners.q22 == corners.q21,
        place.0 < width,
        i == place.1 * width + place.0,
        range is Some,
        channel is Color ==> range == Some((0usize, 4usize)),
        channel is Alpha ==> range == Some((3usize, 4usize)),
        channel is Normal ==> range == Some((4usize, 7usize)),
        channel is Depth ==> range == Some((8usize, 9usize)),
        channel is Distance ==> range == Some((9usize, 10usize)),
{
    assert((v + 1) * width == v * width + width) by (nonlinear_arith);
}

/// An array is taken exactly if it is there and has as many extents as expected.
pub proof fn promise_arrays(
    shape: Option<Vec<usize>>,
    rank: usize,
    r: Result<Vec<usize>, NpzError>,
    points: usize,
    width: u32,
    height: u32,
    fits: bool,
    coordinates: usize,
    spatial: bool,
)
    requires
        call_ensures(load_tensor_from_npz, (shape, rank), r),
        call_ensures(one_per_pixel, (points, width, height), fits),
        call_ensures(is_spatial, (coordinates,), spatial),
    ensures
        shape is None ==> r == Err::<Vec<usize>, NpzError>(NpzError::NotFound),
        shape matches Some(extents) ==> {
            &&& extents@.len() == rank ==> r == Ok::<Vec<usize>, NpzError>(extents)
            &&& extents@.len() != rank ==> (r matches Err(NpzError::WrongRank { expected, got })
                && expected == rank && got == extents@.len())
        },
        fits <==> points == width * height,
        spatial <==> coordinates == 3,
{
    if let Some(extents) = shape {
        assert(extents.len() == extents@.len());
    }
}

/// Every view is copied under its number, and so is each of its neighbors.
pub proof fn promise_copies(
    scene: &str,
    dir: &str,
    paths: Vec<String>,
    neighbors: Vec<Vec<u32>>,
    r: Vec<Copied>,
    view: int,
    j: int,
)
    requires
        call_ensures(debug_copies, (scene, dir, &paths, &neighbors), r),
        0 <= view < paths@.len(),
        paths@.len() <= neighbors@.len(),
        forall|i: int, j: int|
            0 <= i < paths@.len() && 0 <= j < neighbors@[i]@.len() ==> #[trigger] neighbors@[i]@[j]
                < paths@.len(),
    ensures
        ({
            let at = copies_before(neighbor_lists(neighbors@), view);
            &&& 0 <= at < r@.len()
            &&& r@[at].from@ == scene@ + "/"@ + paths@[view]@
            &&& r@[at].to@ == dir@ + "/"@ + zero_padded(view as nat, 5) + ".png"@
            &&& 0 <= j < neighbors@[view]@.len() ==> {
                &&& at + 1 + j < r@.len()
                &&& r@[at + 1 + j].from@ == scene@ + "/"@ + paths@[neighbors@[view]@[j] as int]@
                &&& r@[at + 1 + j].to@ == dir@ + "/"@ + zero_padded(view as nat, 5)
                    + "_neighbor_"@ + decimal(j as nat) + ".png"@
            }
        }),
{
    let names = texts(paths@);
    let lists = neighbor_lists(neighbors@);
    let n = paths@.len() as int;
    let all = crate::dataset_debug::copy_views(r@);
    crate::dataset_debug::law_every_copy(scene@, dir@, names, lists, n, view, j);
    assert(all.len() == r@.len());
    let at = copies_before(lists, view);
    assert(all[at] == (r@[at].from@, r@[at].to@));
    assert(lists[view] == neighbors@[view]@);
    assert(names[view] == paths@[view]@);
    if 0 <= j < neighbors@[view]@.len() {
        assert(neighbors@[view]@[j] < paths@.len());
        assert(all[at + 1 + j] == (r@[at + 1 + j].from@, r@[at + 1 + j].to@));
        assert(names[neighbors@[view]@[j] as int] == paths@[neighbors@[view]@[j] as int]@);
    }
}

/// A process that shows splats tells of its place before it opens it, and opens it before
/// it loads anything.
pub proof fn promise_process(steps: Vec<ProcessStep>)
    requires
        call_ensures(process_stream, (), steps),
    ensures
        steps@.len() == 4,
        steps@[0] is EmitNewSource,
        steps@[1] is Mount,
        steps@[2] is MemoryCleanup,
        steps@[3] is View,
{
}

/// An answer that comes as text is read by its three members, and remembered exactly if the
/// first two are texts. Only then is it spoken.
pub proof fn promise_taken_reply(
    client: &mut GeminiClient,
    text: &str,
    r: Result<crate::gemini::PendingAnswer, GuideError>,
)
    requires
        call_ensures(GeminiClient::take_reply, (client, text), r),
    ensures
        r matches Ok(pending) ==> {
            let n = old(client).conversation@.len();
            &&& crate::gemini::json_member(text@, "text_response"@) == Some(
                crate::gemini::MemberView::Text { text: pending.answer@ },
            )
            &&& pending.speech.user_message@ == pending.answer@
            &&& final(client).conversation@.len() == n + 1
            &&& final(client).conversation@[n as int].assistant_response@ == pending.answer@
            &&& crate::gemini::json_member(text@, "audio_transcript"@) == Some(
                crate::gemini::MemberView::Text {
                    text: final(client).conversation@[n as int].user_message@,
                },
            )
        },
        r is Err ==> final(client).conversation@.len() == old(client).conversation@.len(),
        final(client).keywords == old(client).keywords,
{
    let before = crate::gemini::exchanges(old(client).conversation@);
    let after = crate::gemini::exchanges(final(client).conversation@);
    assert(before.len() == old(client).conversation@.len());
    assert(after.len() == final(client).conversation@.len());
    if let Ok(pending) = r {
        let k = before.len() as int;
        assert(after[k] == (
            final(client).conversation@[k].user_message@,
            final(client).conversation@[k].assistant_response@,
        ));
    }
}

/// Each file with splats is found where it stands, by its ending alone.
pub proof fn promise_ply_files(
    style: PathStyle,
    paths: Vec<String>,
    files: Vec<crate::view_stream::PlyFile>,
    i: int,
    k: int,
)
    requires
        call_ensures(crate::view_stream::find_ply_files, (style, &paths), files),
    ensures
        0 <= k < files@.len() ==> {
            &&& files@[k].index < paths@.len()
            &&& files@[k].path@ == paths@[files@[k].index as int]@
            &&& extension_of(style, files@[k].path@) == Some("ply"@)
            &&& files@[k].auxiliary is None <==> crate::paths::file_name_of(
                style,
                files@[k].path@,
            ) == Some("full.ply"@)
            &&& files@[k].auxiliary is Some ==> Some(files@[k].auxiliary->0@) == stem_of(
                style,
                files@[k].path@,
            )
        },
        0 <= i < paths@.len() && extension_of(style, paths@[i]@) == Some("ply"@) ==> exists|j: int|
            0 <= j < files@.len() && (#[trigger] files@[j]).index == i,
{
    let all = texts(paths@);
    let list = crate::view_stream::ply_files(style, all);
    crate::view_stream::law_every_ply_file(style, all, i, k);
    assert(crate::view_stream::ply_views(files@).len() == files@.len());
    assert(all.len() == paths@.len());
    if 0 <= k < files@.len() {
        assert(crate::view_stream::ply_views(files@)[k] == files@[k]@);
        assert(all[list[k].index] == paths@[list[k].index]@);
    }
    if 0 <= i < paths@.len() && extension_of(style, paths@[i]@) == Some("ply"@) {
        assert(all[i] == paths@[i]@);
        let j = choose|j: int| 0 <= j < list.len() && (#[trigger] list[j]).index == i;
        assert(crate::view_stream::ply_views(files@)[j] == files@[j]@);
        assert(files@[j].index == i);
    }
}

/// A point cloud is written with its points in order, one line for each.
pub proof fn promise_point_cloud(
    points: Vec<PlyPoint>,
    colors: Vec<Rgb>,
    plain: String,
    colored: String,
)
    requires
        call_ensures(save_point_cloud_to_ply, (&points, None::<&Vec<Rgb>>), plain),
        call_ensures(save_point_cloud_to_ply, (&points, Some(&colors)), colored),
    ensures
        plain@ == "ply\nformat ascii 1.0\nelement vertex "@ + decimal(points@.len())
            + "\nproperty float x\nproperty float y\nproperty float z\n"@ + "end_header\n"@
            + point_lines(points@, None, points@.len() as int),
        colored@ == "ply\nformat ascii 1.0\nelement vertex "@ + decimal(points@.len())
            + "\nproperty float x\nproperty float y\nproperty float z\n"@
            + "property uchar red\nproperty uchar green\nproperty uchar blue\n"@ + "end_header\n"@
            + point_lines(points@, Some(colors@), points@.len() as int),
{
    crate::ply::law_header_of_cloud(points@, None);
    crate::ply::law_header_of_cloud(points@, Some(colors@));
}

/// Values are graded by the range of what is above zero among them.
pub proof fn promise_grading(data: Vec<F32Bits>, span: Option<Span>, marks: Vec<bool>, i: int)
    requires
        call_ensures(find_span, (&data,), span),
        call_ensures(graded, (&data, span), marks),
    ensures
        marks@.len() == data@.len(),
        0 <= i < data@.len() ==> (marks@[i] <==> 0 < data@[i].bits <= 0x7f80_0000 && span is Some
            && span->0.min.bits < span->0.max.bits),
        span is Some <==> exists|k: int|
            0 <= k < data@.len() && 0 < (#[trigger] data@[k]).bits <= 0x7f80_0000,
        0 <= i < data@.len() && 0 < data@[i].bits <= 0x7f7f_ffff ==> span->0.min.bits
            <= data@[i].bits <= span->0.max.bits,
{
    crate::visualization::law_span_ends(data@);
}

/// Sound is looked for among all parts, and what is found is the first of them that is;
/// there is nothing to hear exactly if no part is.
pub proof fn promise_sound(parts: Vec<SpeechPart>, r: Result<Vec<u8>, SpeechError>, i: int)
    requires
        call_ensures(find_speech, (&parts,), r),
    ensures
        (r matches Err(e) && e is NoAudio) <==> forall|k: int|
            0 <= k < parts@.len() ==> !sounds(#[trigger] parts@[k]),
        0 <= i < parts@.len() && sounds(parts@[i]) && (forall|k: int|
            0 <= k < i ==> !sounds(#[trigger] parts@[k])) ==> (r matches Ok(bytes)
            ==> crate::base64_text::base64_text(bytes@) == parts@[i]->data@),
{
    crate::gemini::law_first_sound(parts@, i);
}

/// An answer is complete once it has its sound and its keywords: it has the text that was
/// spoken, and all keywords in order.
pub proof fn promise_completed(
    pending: crate::gemini::PendingAnswer,
    parts: Vec<SpeechPart>,
    r: Result<GeminiResponse, crate::gemini::AnswerError>,
    i: int,
)
    requires
        call_ensures(crate::gemini::PendingAnswer::complete, (pending, &parts), r),
    ensures
        r matches Ok(response) ==> {
            &&& response.text_output == pending.answer
            &&& pending.reply.selected_keywords is Some
            &&& response.keywords@.len() == pending.reply.selected_keywords->0@.len()
            &&& 0 <= i < response.keywords@.len() ==> pending.reply.selected_keywords->0@[i]
                is Some && response.keywords@[i]@ == pending.reply.selected_keywords->0@[i]->0@
            &&& 0 <= i < parts@.len() && sounds(parts@[i]) && (forall|k: int|
                0 <= k < i ==> !sounds(#[trigger] parts@[k])) ==> crate::base64_text::base64_text(
                response.audio_output@,
            ) == parts@[i]->data@
        },
{
    crate::gemini::law_first_sound(parts@, i);
    if let Ok(response) = r {
        crate::gemini::law_keywords_of_answer(
            crate::gemini::items_view(pending.reply.selected_keywords),
            i,
        );
        let list = pending.reply.selected_keywords->0;
        let all = crate::gemini::option_texts(list@);
        assert(all.len() == list@.len());
        assert(texts(response.keywords@).len() == response.keywords@.len());
        if 0 <= i < response.keywords@.len() {
            assert(texts(response.keywords@)[i] == response.keywords@[i]@);
            assert(all[i] is Some);
        }
    }
}

/// A rendering is saved as four pictures; points are looked for exactly if a point cloud was
/// asked for, and it is saved exactly if there are any.
pub proof fn promise_saved_rendering(
    prefix: &str,
    depth: Vec<F32Bits>,
    rgba: Vec<u8>,
    w: usize,
    h: usize,
    cloud: bool,
    r: crate::visualization::RenderOutput,
    i: int,
)
    requires
        call_ensures(
            crate::visualization::save_render_output,
            (prefix, &depth, &rgba, w, h, cloud),
            r,
        ),
        0 < w,
        depth@.len() == w * h,
        0 <= i < r.points@.len(),
    ensures
        cloud,
        r.files@.len() == 5,
        r.files@[4].file is PointCloud,
        r.files@[4].path@ == prefix@ + "_pointcloud.ply"@,
        r.files@[0].path@ == prefix@ + "_render_rgb.png"@,
        ({
            let p = r.points@[i].y * w + r.points@[i].x;
            &&& 0 <= p < depth@.len()
            &&& r.points@[i].depth == depth@[p]
            &&& r.points@[i].red == rgba@[4 * p]
            &&& r.points@[i].green == rgba@[4 * p + 1]
            &&& r.points@[i].blue == rgba@[4 * p + 2]
        }),
{
    assert(depth.len() == depth@.len());
    crate::visualization::law_points_of_pixels(depth@, rgba@, w as int, w * h, 0, i);
    crate::visualization::law_saved_files(r.files@, prefix@, cloud, true, 4);
    crate::visualization::law_saved_files(r.files@, prefix@, cloud, true, 0);
}

/// Optional texts are the same exactly if both are missing or both have the same characters,
/// and the width of a number is what it takes to write it.
pub proof fn promise_small_things(
    a: Option<String>,
    b: Option<String>,
    same: bool,
    n: u64,
    width: usize,
    size: crate::gpu::GroupSize,
    items: Option<u32>,
)
    requires
        call_ensures(crate::camera::equal_option, (&a, &b), same),
        call_ensures(crate::text::decimal_len, (n,), width),
        call_ensures(crate::gpu::GroupSize::items, (&size,), items),
    ensures
        same <==> (a is None && b is None) || (a is Some && b is Some && a->0@ == b->0@),
        width == decimal(n as nat).len(),
        items is Some <==> size.threads * size.items_per_thread <= u32::MAX,
        items matches Some(k) ==> k == size.threads * size.items_per_thread,
{
    assert(0 <= size.threads * size.items_per_thread) by (nonlinear_arith)
        requires
            size.threads >= 0,
            size.items_per_thread >= 0,
    ;
}

} // verus!
