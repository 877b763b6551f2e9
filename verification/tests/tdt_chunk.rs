use margins::media::providers::FluidCoreMlModelVersion;
use margins::media::tdt_chunk::{DecodeChunkOptions, TdtChunkDecoder, TdtPhase, TdtRequest, BLANK_ID_V2};

fn options(is_last_chunk: bool, global_frame_offset: usize) -> DecodeChunkOptions {
    DecodeChunkOptions {
        is_last_chunk,
        global_frame_offset,
        context_frame_adjustment: 0,
        emit_tokens_after_global_frame: None,
        initial_time_index_override: None,
    }
}

/// Runs a machine against scripted joint answers; returns it and the
/// requests it made.
fn drive(mut d: TdtChunkDecoder<f32>, answers: &[(usize, usize)]) -> (TdtChunkDecoder<f32>, Vec<TdtRequest>) {
    let mut asked = Vec::new();
    let mut next = answers.iter();
    loop {
        let request = d.request();
        asked.push(request);
        match request {
            TdtRequest::Prime => d.primed(),
            TdtRequest::DecoderOutput { .. } => d.decoder_ready(),
            TdtRequest::Joint { .. } => {
                let &(token, bin) = next.next().expect("script ran out");
                d.on_joint(token, bin, 0.5).unwrap();
            }
            TdtRequest::EmitDecoder { .. } => d.emitted(),
            TdtRequest::Finished { .. } => break,
        }
    }
    assert!(next.next().is_none());
    (d, asked)
}

#[test]
fn a_chunk_primes_emits_and_advances_over_blanks() {
    let d = TdtChunkDecoder::new(FluidCoreMlModelVersion::V2, 5, 5, Some(5), None, false, options(false, 0)).unwrap();
    let (d, asked) = drive(d, &[(7, 1), (BLANK_ID_V2, 0), (BLANK_ID_V2, 3)]);
    assert_eq!(
        asked,
        vec![
            TdtRequest::Prime,
            TdtRequest::DecoderOutput { label: BLANK_ID_V2, cached: true },
            TdtRequest::Joint { frame: 0 },
            TdtRequest::EmitDecoder { token: 7 },
            TdtRequest::DecoderOutput { label: 7, cached: true },
            TdtRequest::Joint { frame: 1 },
            TdtRequest::Joint { frame: 2 },
            TdtRequest::Finished { touched: true, last_token: Some(7), keep_predictor: true },
        ]
    );
    assert_eq!(d.tokens, vec![7]);
    assert_eq!(d.timestamps, vec![0]);
    assert_eq!(d.durations, vec![1]);
    assert_eq!(d.confidences, vec![0.5f32]);
}

#[test]
fn a_last_chunk_takes_extra_steps_until_blanks_run_out() {
    let d = TdtChunkDecoder::new(FluidCoreMlModelVersion::V2, 3, 3, Some(3), Some(5), true, options(true, 10)).unwrap();
    let mut answers = vec![(BLANK_ID_V2, 4), (9, 0)];
    answers.extend(std::iter::repeat((BLANK_ID_V2, 0)).take(5));
    let (d, asked) = drive(d, &answers);
    let frames: Vec<usize> = asked
        .iter()
        .filter_map(|r| match r {
            TdtRequest::Joint { frame } => Some(*frame),
            _ => None,
        })
        .collect();
    assert_eq!(frames, vec![0, 2, 2, 1, 2, 2, 1]);
    assert_eq!(asked[0], TdtRequest::DecoderOutput { label: 5, cached: true });
    assert!(asked.contains(&TdtRequest::EmitDecoder { token: 9 }));
    assert_eq!(
        *asked.last().unwrap(),
        TdtRequest::Finished { touched: true, last_token: Some(9), keep_predictor: false }
    );
    assert_eq!(d.tokens, vec![9]);
    assert_eq!(d.timestamps, vec![12]);
    assert_eq!(d.durations, vec![0]);
}

#[test]
fn punctuation_drops_the_kept_decoder_output() {
    let d = TdtChunkDecoder::new(FluidCoreMlModelVersion::V2, 4, 4, Some(4), Some(3), true, options(false, 0)).unwrap();
    let (_, asked) = drive(d, &[(7883, 1), (BLANK_ID_V2, 3)]);
    assert_eq!(
        *asked.last().unwrap(),
        TdtRequest::Finished { touched: true, last_token: Some(7883), keep_predictor: false }
    );
}

#[test]
fn tokens_before_the_emission_frame_are_not_emitted() {
    let mut o = options(false, 100);
    o.emit_tokens_after_global_frame = Some(102);
    let d = TdtChunkDecoder::new(FluidCoreMlModelVersion::V2, 6, 6, Some(6), Some(1), true, o).unwrap();
    let (d, _) = drive(d, &[(11, 2), (12, 2), (13, 1), (BLANK_ID_V2, 1)]);
    assert_eq!(d.tokens, vec![12, 13]);
    assert_eq!(d.timestamps, vec![102, 104]);
    assert_eq!(d.last_token, Some(13));
}

#[test]
fn short_chunks_and_other_versions_decode_nothing() {
    let one = TdtChunkDecoder::<f32>::new(FluidCoreMlModelVersion::V2, 1, 1, None, Some(4), true, options(true, 0)).unwrap();
    assert_eq!(one.phase, TdtPhase::Done);
    assert_eq!(
        one.request(),
        TdtRequest::Finished { touched: false, last_token: Some(4), keep_predictor: true }
    );
    let silent = TdtChunkDecoder::<f32>::new(FluidCoreMlModelVersion::V2, 8, 0, Some(8), None, false, options(true, 0)).unwrap();
    assert_eq!(silent.phase, TdtPhase::Done);
    let error = TdtChunkDecoder::<f32>::new(FluidCoreMlModelVersion::V3, 8, 8, Some(8), None, false, options(true, 0)).err().unwrap();
    assert_eq!(error, "FluidAudio CoreML V3 decoder is not ported in Rust yet; v2 is supported");
}

#[test]
fn an_unknown_duration_bin_is_an_error_that_leaves_the_machine() {
    let mut d = TdtChunkDecoder::new(FluidCoreMlModelVersion::V2, 4, 4, Some(4), Some(3), true, options(false, 0)).unwrap();
    d.decoder_ready();
    assert_eq!(d.on_joint(3, 5, 0.5f32), Err("duration bin index out of range: 5".to_owned()));
    assert_eq!(d.phase, TdtPhase::MainJoint);
    assert_eq!(d.request(), TdtRequest::Joint { frame: 0 });
}
