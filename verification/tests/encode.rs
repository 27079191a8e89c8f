use glimpse::encode::{
    encode_step, fallback, ffmpeg_args, first_encoder, is_worth_logging, EncodeConfig, EncodeEvent,
    EncodeStep, Encoder, WriteOutcome,
};

fn config(fps: u32) -> EncodeConfig {
    EncodeConfig {
        width: 1920,
        height: 1080,
        fps,
        bitrate_mbps: 30,
        segment_pattern: "C:\\seg\\seg%06d.ts".to_string(),
    }
}

#[test]
fn the_hardware_encoder_has_its_arguments() {
    assert_eq!(
        ffmpeg_args(Encoder::Nvenc, &config(60)).join(" "),
        "-f rawvideo -pixel_format bgra -video_size 1920x1080 -framerate 60 -i pipe:0 \
         -c:v h264_nvenc -preset p4 -surfaces 12 -rc-lookahead 4 -bf 0 -b:v 30M -g 60 \
         -f segment -segment_time 1 -segment_format mpegts C:\\seg\\seg%06d.ts"
    );
}

#[test]
fn high_frame_rates_take_more_surfaces() {
    let args = ffmpeg_args(Encoder::Nvenc, &config(61));
    let i = args.iter().position(|a| a == "-surfaces").unwrap();
    assert_eq!(args[i + 1], "16");
}

#[test]
fn the_software_encoder_has_its_arguments() {
    assert_eq!(
        ffmpeg_args(Encoder::Software, &config(30)).join(" "),
        "-f rawvideo -pixel_format bgra -video_size 1920x1080 -framerate 30 -i pipe:0 \
         -c:v libx264 -preset ultrafast -b:v 30M -g 30 \
         -f segment -segment_time 1 -segment_format mpegts C:\\seg\\seg%06d.ts"
    );
}

#[test]
fn the_hardware_encoder_falls_back_to_the_software_one() {
    assert_eq!(fallback(Encoder::Nvenc), Some(Encoder::Software));
    assert_eq!(fallback(Encoder::Software), None);
}

#[test]
fn the_encoder_is_run_anew_when_it_has_to_be() {
    for running in [Encoder::Nvenc, Encoder::Software] {
        let step = |event| encode_step(running, event);
        assert_eq!(step(EncodeEvent::Frame(WriteOutcome::Sent)), EncodeStep::GoOn);
        assert_eq!(step(EncodeEvent::Frame(WriteOutcome::Full)), EncodeStep::GoOn);
        assert_eq!(step(EncodeEvent::RestartAsked), EncodeStep::Restart(Encoder::Nvenc));
        assert_eq!(step(EncodeEvent::FramesEnded), EncodeStep::Stop);
    }
}

#[test]
fn an_encoder_that_exits_is_followed_by_libx264() {
    assert_eq!(first_encoder(), Encoder::Nvenc);
    let gone = EncodeEvent::Frame(WriteOutcome::Closed);
    let EncodeStep::Restart(next) = encode_step(first_encoder(), gone) else { panic!("no encoder") };
    assert_eq!(next, Encoder::Software);
    assert!(ffmpeg_args(next, &config(30)).contains(&"libx264".to_string()));
    // And where that one exits too, it starts over.
    assert_eq!(encode_step(next, gone), EncodeStep::Restart(first_encoder()));
}

#[test]
fn progress_is_not_logged() {
    assert!(!is_worth_logging("frame=  120 fps= 60"));
    assert!(!is_worth_logging("frame="));
    assert!(is_worth_logging("frame"));
    assert!(is_worth_logging(" frame=1"));
    assert!(is_worth_logging(""));
}
